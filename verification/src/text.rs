//! Character-level string helpers shared by the rest of the library:
//! Unicode white space, trimming, line and paragraph splitting.

use vstd::prelude::*;
use vstd::utf8::*;

verus! {

/// Appends one character to a `String` (`String::push`).
#[verifier::external_body]
pub(crate) fn push_char(s: &mut String, c: char)
    ensures
        final(s)@ == old(s)@.push(c),
{
    s.push(c);
}

/// The characters of `s`, in order.
pub fn chars_of(s: &str) -> (res: Vec<char>)
    ensures
        res@ == s@,
{
    let mut res: Vec<char> = Vec::new();
    for c in it: s.chars()
        invariant
            res@ == it.seq().take(it.index() as int),
    {
        res.push(c);
    }
    res
}

/// Builds a `String` from a slice of characters.
pub fn string_of(cs: &[char]) -> (res: String)
    ensures
        res@ == cs@,
{
    let mut res = String::new();
    let mut i: usize = 0;
    while i < cs.len()
        invariant
            i <= cs.len(),
            res@ == cs@.take(i as int),
        decreases cs.len() - i,
    {
        push_char(&mut res, cs[i]);
        assert(cs@.take(i as int).push(cs@[i as int]) =~= cs@.take(i + 1));
        i += 1;
    }
    assert(cs@.take(cs.len() as int) =~= cs@);
    res
}

/// Builds a `String` from the characters `cs[from..to]`.
pub fn string_of_range(cs: &[char], from: usize, to: usize) -> (res: String)
    requires
        from <= to <= cs.len(),
    ensures
        res@ == cs@.subrange(from as int, to as int),
{
    let mut res = String::new();
    let mut i: usize = from;
    while i < to
        invariant
            from <= i <= to <= cs.len(),
            res@ == cs@.subrange(from as int, i as int),
        decreases to - i,
    {
        push_char(&mut res, cs[i]);
        assert(cs@.subrange(from as int, i as int).push(cs@[i as int]) =~= cs@.subrange(
            from as int,
            i + 1,
        ));
        i += 1;
    }
    res
}

/// The Unicode `White_Space` property, which is what `char::is_whitespace`
/// and `str::trim` test.
pub open spec fn is_white_space(c: char) -> bool {
    let v = c as u32;
    ||| 0x9 <= v <= 0xd
    ||| v == 0x20
    ||| v == 0x85
    ||| v == 0xa0
    ||| v == 0x1680
    ||| 0x2000 <= v <= 0x200a
    ||| v == 0x2028
    ||| v == 0x2029
    ||| v == 0x202f
    ||| v == 0x205f
    ||| v == 0x3000
}

/// Executable form of [`is_white_space`].
pub fn white_space(c: char) -> (b: bool)
    ensures
        b == is_white_space(c),
{
    let v = c as u32;
    (0x9 <= v && v <= 0xd) || v == 0x20 || v == 0x85 || v == 0xa0 || v == 0x1680 || (0x2000 <= v
        && v <= 0x200a) || v == 0x2028 || v == 0x2029 || v == 0x202f || v == 0x205f || v == 0x3000
}

/// `s` without its leading white space.
pub open spec fn trim_start(s: Seq<char>) -> Seq<char>
    decreases s.len(),
{
    if s.len() > 0 && is_white_space(s[0]) {
        trim_start(s.drop_first())
    } else {
        s
    }
}

/// `s` without its trailing white space.
pub open spec fn trim_end(s: Seq<char>) -> Seq<char>
    decreases s.len(),
{
    if s.len() > 0 && is_white_space(s.last()) {
        trim_end(s.drop_last())
    } else {
        s
    }
}

/// `s` without leading and trailing white space (`str::trim`).
pub open spec fn trim(s: Seq<char>) -> Seq<char> {
    trim_end(trim_start(s))
}

proof fn lemma_trim_start_cut(s: Seq<char>) -> (i: int)
    ensures
        0 <= i <= s.len(),
        trim_start(s) == s.skip(i),
        forall|k: int| 0 <= k < i ==> is_white_space(#[trigger] s[k]),
        i < s.len() ==> !is_white_space(s[i]),
    decreases s.len(),
{
    if s.len() > 0 && is_white_space(s[0]) {
        let j = lemma_trim_start_cut(s.drop_first());
        assert(s.drop_first().skip(j) =~= s.skip(j + 1));
        assert forall|k: int| 0 <= k < j + 1 implies is_white_space(#[trigger] s[k]) by {
            if k > 0 {
                assert(s[k] == s.drop_first()[k - 1]);
            }
        }
        j + 1
    } else {
        assert(s.skip(0) =~= s);
        0
    }
}

proof fn lemma_trim_end_cut(s: Seq<char>) -> (j: int)
    ensures
        0 <= j <= s.len(),
        trim_end(s) == s.take(j),
        forall|k: int| j <= k < s.len() ==> is_white_space(#[trigger] s[k]),
        j > 0 ==> !is_white_space(s[j - 1]),
    decreases s.len(),
{
    if s.len() > 0 && is_white_space(s.last()) {
        let j = lemma_trim_end_cut(s.drop_last());
        assert(s.drop_last().take(j) =~= s.take(j));
        assert forall|k: int| j <= k < s.len() implies is_white_space(#[trigger] s[k]) by {
            if k < s.len() - 1 {
                assert(s[k] == s.drop_last()[k]);
            }
        }
        j
    } else {
        assert(s.take(s.len() as int) =~= s);
        s.len() as int
    }
}

/// Law: trimming cuts white space, and only white space, off both ends: the
/// result is a contiguous part of the text, everything cut off is white
/// space, and the result neither starts nor ends with white space.
pub proof fn lemma_trim_cuts_white_space(s: Seq<char>)
    ensures
        exists|i: int, j: int|
            0 <= i <= j <= s.len() && trim(s) == s.subrange(i, j) && (forall|k: int|
                0 <= k < i ==> is_white_space(#[trigger] s[k])) && (forall|k: int|
                j <= k < s.len() ==> is_white_space(#[trigger] s[k])),
        trim(s).len() > 0 ==> !is_white_space(trim(s)[0]) && !is_white_space(trim(s).last()),
{
    let i = lemma_trim_start_cut(s);
    let t = s.skip(i);
    let j = lemma_trim_end_cut(t);
    assert(trim(s) =~= s.subrange(i, i + j));
    assert forall|k: int| i + j <= k < s.len() implies is_white_space(#[trigger] s[k]) by {
        assert(s[k] == t[k - i]);
    }
    if trim(s).len() > 0 {
        assert(trim(s)[0] == s[i]);
        assert(trim(s).last() == t[j - 1]);
    }
}

/// Law: the space, tab, line feed and carriage return are white space, and
/// no ASCII letter or digit is.
pub proof fn lemma_white_space_examples(c: char)
    ensures
        c == ' ' || c == '\t' || c == '\n' || c == '\r' ==> is_white_space(c),
        ('a' <= c && c <= 'z') || ('A' <= c && c <= 'Z') || ('0' <= c && c <= '9') ==> !is_white_space(c),
{
}

/// `s` without its trailing `'\n'` characters (`str::trim_end_matches('\n')`).
pub open spec fn strip_newlines_end(s: Seq<char>) -> Seq<char>
    decreases s.len(),
{
    if s.len() > 0 && s.last() == '\n' {
        strip_newlines_end(s.drop_last())
    } else {
        s
    }
}

/// Index of the first character of `s[from..to]` that is not white space.
fn skip_white_space(s: &[char], from: usize, to: usize) -> (i: usize)
    requires
        from <= to <= s.len(),
    ensures
        from <= i <= to,
        trim_start(s@.subrange(from as int, to as int)) == s@.subrange(i as int, to as int),
{
    let mut i = from;
    while i < to && white_space(s[i])
        invariant
            from <= i <= to <= s.len(),
            trim_start(s@.subrange(from as int, to as int)) == trim_start(
                s@.subrange(i as int, to as int),
            ),
        decreases to - i,
    {
        assert(s@.subrange(i as int, to as int).drop_first() =~= s@.subrange(i + 1, to as int));
        i += 1;
    }
    i
}

/// The end of `s[from..to]` once trailing white space is removed.
fn trailing_white_space_start(s: &[char], from: usize, to: usize) -> (j: usize)
    requires
        from <= to <= s.len(),
    ensures
        from <= j <= to,
        trim_end(s@.subrange(from as int, to as int)) == s@.subrange(from as int, j as int),
{
    let mut j = to;
    while j > from && white_space(s[j - 1])
        invariant
            from <= j <= to <= s.len(),
            trim_end(s@.subrange(from as int, to as int)) == trim_end(
                s@.subrange(from as int, j as int),
            ),
        decreases j,
    {
        assert(s@.subrange(from as int, j as int).drop_last() =~= s@.subrange(
            from as int,
            j - 1,
        ));
        j -= 1;
    }
    j
}

/// The end of `s[from..to]` once trailing newlines are removed.
pub fn trailing_newlines_start(s: &[char], from: usize, to: usize) -> (j: usize)
    requires
        from <= to <= s.len(),
    ensures
        from <= j <= to,
        strip_newlines_end(s@.subrange(from as int, to as int)) == s@.subrange(
            from as int,
            j as int,
        ),
{
    let mut j = to;
    while j > from && s[j - 1] == '\n'
        invariant
            from <= j <= to <= s.len(),
            strip_newlines_end(s@.subrange(from as int, to as int)) == strip_newlines_end(
                s@.subrange(from as int, j as int),
            ),
        decreases j,
    {
        assert(s@.subrange(from as int, j as int).drop_last() =~= s@.subrange(
            from as int,
            j - 1,
        ));
        j -= 1;
    }
    j
}

/// The bounds of `trim(s[from..to])` inside `s`.
pub fn trim_bounds(s: &[char], from: usize, to: usize) -> (r: (usize, usize))
    requires
        from <= to <= s.len(),
    ensures
        from <= r.0 <= r.1 <= to,
        trim(s@.subrange(from as int, to as int)) == s@.subrange(r.0 as int, r.1 as int),
{
    let i = skip_white_space(s, from, to);
    let j = trailing_white_space_start(s, i, to);
    (i, j)
}

/// `trim(s)` as a `String`.
pub fn trimmed(s: &str) -> (res: String)
    ensures
        res@ == trim(s@),
{
    let cs = chars_of(s);
    let (i, j) = trim_bounds(&cs, 0, cs.len());
    assert(cs@.subrange(0, cs.len() as int) =~= cs@);
    string_of_range(&cs, i, j)
}

/// `std::str::from_utf8`: the bytes read as UTF-8 text, when they are
/// valid UTF-8, and nothing otherwise.
#[verifier::external_body]
pub(crate) fn str_from_utf8(bytes: &[u8]) -> (r: Option<&str>)
    ensures
        r is Some <==> valid_utf8(bytes@),
        r matches Some(s) ==> s@ == decode_utf8(bytes@),
{
    std::str::from_utf8(bytes).ok()
}

/// What `String::from_utf8_lossy` makes of the given bytes: the UTF-8 text,
/// with each invalid sequence replaced by U+FFFD.
pub uninterp spec fn utf8_lossy(bytes: Seq<u8>) -> Seq<char>;

/// `String::from_utf8_lossy`. The result is named by [`utf8_lossy`]; on
/// valid UTF-8 it is the decoded text, as the documentation states.
#[verifier::external_body]
pub(crate) fn string_from_utf8_lossy(bytes: &[u8]) -> (r: String)
    ensures
        r@ == utf8_lossy(bytes@),
        valid_utf8(bytes@) ==> r@ == decode_utf8(bytes@),
{
    String::from_utf8_lossy(bytes).into_owned()
}

/// Index of the first `c` in `s` at or after `i`.
pub open spec fn char_from(s: Seq<char>, i: int, c: char) -> Option<int>
    decreases s.len() - i,
{
    if i < 0 || i >= s.len() {
        None
    } else if s[i] == c {
        Some(i)
    } else {
        char_from(s, i + 1, c)
    }
}

/// An index that [`char_from`] finds is at or after where it starts, inside
/// the text, and holds the first occurrence there of the character looked
/// for; when it finds none, the character does not occur from there on.
pub proof fn lemma_char_from_bounds(s: Seq<char>, i: int, c: char)
    ensures
        char_from(s, i, c) matches Some(k) ==> i <= k < s.len() && s[k] == c && forall|j: int|
            i <= j < k ==> s[j] != c,
        char_from(s, i, c) is None ==> forall|j: int| 0 <= i <= j < s.len() ==> s[j] != c,
    decreases s.len() - i,
{
    if 0 <= i < s.len() && s[i] != c {
        lemma_char_from_bounds(s, i + 1, c);
    }
}

/// The first line of `s` as `str::lines` yields it (line endings are `"\n"`
/// and `"\r\n"`), or the empty text when `s` is empty.
pub open spec fn first_line_of(s: Seq<char>) -> Seq<char> {
    match char_from(s, 0, '\n') {
        Some(k) => {
            let t = s.take(k);
            if t.len() > 0 && t.last() == '\r' {
                t.drop_last()
            } else {
                t
            }
        },
        None => s,
    }
}

/// Scans for the first `c` at or after `from`.
pub fn find_char(s: &[char], from: usize, c: char) -> (r: Option<usize>)
    requires
        from <= s.len(),
    ensures
        r matches Some(k) ==> char_from(s@, from as int, c) == Some(k as int) && from <= k
            < s.len() && s@[k as int] == c,
        r is None ==> char_from(s@, from as int, c) is None,
{
    let mut i = from;
    while i < s.len()
        invariant
            from <= i <= s.len(),
            char_from(s@, from as int, c) == char_from(s@, i as int, c),
        decreases s.len() - i,
    {
        if s[i] == c {
            return Some(i);
        }
        i += 1;
    }
    None
}

/// The first line of a text, as `text.lines().next().unwrap_or_default()`
/// gives it; used for commit message summaries.
pub fn first_line(text: &str) -> (res: String)
    ensures
        res@ == first_line_of(text@),
{
    let cs = chars_of(text);
    match find_char(&cs, 0, '\n') {
        Some(k) => {
            if k > 0 && cs[k - 1] == '\r' {
                assert(cs@.take(k as int).drop_last() =~= cs@.subrange(0, k - 1));
                string_of_range(&cs, 0, k - 1)
            } else {
                assert(cs@.take(k as int) =~= cs@.subrange(0, k as int));
                string_of_range(&cs, 0, k)
            }
        },
        None => string_of(&cs),
    }
}

/// Index of the first place at or after `i` where `c` occurs twice in a row
/// (`"\n\n"` for a blank line, `"::"` for a label scope).
pub open spec fn double_char_from(s: Seq<char>, i: int, c: char) -> Option<int>
    decreases s.len() - i,
{
    if i < 0 || i + 1 >= s.len() {
        None
    } else if s[i] == c && s[i + 1] == c {
        Some(i)
    } else {
        double_char_from(s, i + 1, c)
    }
}

/// Scans for `c` twice in a row, starting at `from`.
pub fn find_double_char(s: &[char], from: usize, c: char) -> (r: Option<usize>)
    requires
        from <= s.len(),
    ensures
        r matches Some(k) ==> double_char_from(s@, from as int, c) == Some(k as int) && from <= k
            && k + 1 < s.len(),
        r is None ==> double_char_from(s@, from as int, c) is None,
{
    let mut i: usize = from;
    while i < s.len() && i + 1 < s.len()
        invariant
            from <= i <= s.len(),
            double_char_from(s@, from as int, c) == double_char_from(s@, i as int, c),
        decreases s.len() - i,
    {
        if s[i] == c && s[i + 1] == c {
            return Some(i);
        }
        i += 1;
    }
    None
}

/// What `str::to_lowercase` makes of a text (lowercase by the Unicode
/// `Lowercase` property).
pub uninterp spec fn lowercase_of(s: Seq<char>) -> Seq<char>;

/// `str::to_lowercase`; its result is named by [`lowercase_of`].
#[verifier::external_body]
pub(crate) fn to_lowercase(s: &str) -> (r: String)
    ensures
        r@ == lowercase_of(s@),
{
    s.to_lowercase()
}

/// `String::from_utf8`: the bytes as text when they are valid UTF-8, and
/// nothing otherwise.
#[verifier::external_body]
pub(crate) fn string_from_utf8(bytes: Vec<u8>) -> (r: Option<String>)
    ensures
        r is Some <==> valid_utf8(bytes@),
        r matches Some(s) ==> s@ == decode_utf8(bytes@),
{
    String::from_utf8(bytes).ok()
}

/// Whether the characters `v` spell the text `lit`.
pub fn text_is(v: &[char], lit: &str) -> (r: bool)
    ensures
        r == (v@ == lit@),
{
    let w = chars_of(lit);
    if v.len() != w.len() {
        return false;
    }
    let mut i: usize = 0;
    while i < v.len()
        invariant
            i <= v@.len() == w@.len(),
            w@ == lit@,
            forall|k: int| 0 <= k < i ==> v@[k] == w@[k],
        decreases v@.len() - i,
    {
        if v[i] != w[i] {
            return false;
        }
        i += 1;
    }
    assert(v@ =~= w@);
    true
}

} // verus!
