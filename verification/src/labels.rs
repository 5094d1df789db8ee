//! Issue labels: scoped labels (`scope::value`), label changes on an issue,
//! and the name, color and description rules for label definitions.

use vstd::prelude::*;
use crate::text::{
    chars_of, double_char_from, find_double_char, lowercase_of, string_of_range, to_lowercase, trim, trimmed,
};

verus! {

/// The texts of a sequence of strings.
pub open spec fn texts(v: Seq<String>) -> Seq<Seq<char>> {
    v.map_values(|s: String| s@)
}

/// The scope of a label: the text before its first `"::"`, if it has one.
pub open spec fn scope_of(label: Seq<char>) -> Option<Seq<char>> {
    match double_char_from(label, 0, ':') {
        Some(i) => Some(label.take(i)),
        None => None,
    }
}

/// Whether a label before index `j` has the scope `s`.
pub open spec fn scope_seen_before(labels: Seq<Seq<char>>, j: int, s: Seq<char>) -> bool {
    exists|i: int| 0 <= i < j && #[trigger] scope_of(labels[i]) == Some(s)
}

/// Whether the label at `j` repeats the scope of an earlier label.
pub open spec fn repeats_scope(labels: Seq<Seq<char>>, j: int) -> bool {
    match scope_of(labels[j]) {
        Some(s) => scope_seen_before(labels, j, s),
        None => false,
    }
}

/// The scope of the first label, at or after `j`, that repeats the scope of
/// an earlier label.
pub open spec fn first_conflict_from(labels: Seq<Seq<char>>, j: int) -> Option<Seq<char>>
    decreases labels.len() - j,
{
    if j < 0 || j >= labels.len() {
        None
    } else if repeats_scope(labels, j) {
        scope_of(labels[j])
    } else {
        first_conflict_from(labels, j + 1)
    }
}

/// The scope of a label, as `label.split_once("::")` gives it.
pub fn label_scope(label: &String) -> (r: Option<String>)
    ensures
        match scope_of(label@) {
            Some(s) => r matches Some(x) && x@ == s,
            None => r is None,
        },
{
    let cs = chars_of(label.as_str());
    match find_double_char(&cs, 0, ':') {
        Some(i) => {
            assert(cs@.subrange(0, i as int) =~= cs@.take(i as int));
            Some(string_of_range(&cs, 0, i))
        },
        None => None,
    }
}

/// Only one label per scope is allowed: the scope of the first label that
/// repeats the scope of an earlier one, if any.
pub fn conflicting_scope(labels: &[String]) -> (r: Option<String>)
    ensures
        match first_conflict_from(texts(labels@), 0) {
            Some(s) => r matches Some(x) && x@ == s,
            None => r is None,
        },
{
    let ghost ls = texts(labels@);
    let mut scopes: Vec<Option<String>> = Vec::new();
    let mut j: usize = 0;
    while j < labels.len()
        invariant
            j <= labels@.len(),
            ls == texts(labels@),
            scopes@.len() == j,
            forall|k: int|
                0 <= k < j ==> match #[trigger] scope_of(ls[k]) {
                    Some(s) => scopes@[k] matches Some(x) && x@ == s,
                    None => scopes@[k] is None,
                },
            first_conflict_from(ls, 0) == first_conflict_from(ls, j as int),
        decreases labels@.len() - j,
    {
        let sj = label_scope(&labels[j]);
        assert(labels@[j as int]@ == ls[j as int]);
        match &sj {
            Some(s) => {
                let mut i: usize = 0;
                while i < j
                    invariant
                        i <= j < labels@.len(),
                        scopes@.len() == j,
                        ls == texts(labels@),
                        scope_of(ls[j as int]) == Some(s@),
                        first_conflict_from(ls, 0) == first_conflict_from(ls, j as int),
                        forall|k: int|
                            0 <= k < j ==> match #[trigger] scope_of(ls[k]) {
                                Some(s) => scopes@[k] matches Some(x) && x@ == s,
                                None => scopes@[k] is None,
                            },
                        forall|k: int| 0 <= k < i ==> #[trigger] scope_of(ls[k]) != Some(s@),
                    decreases j - i,
                {
                    let same = match &scopes[i] {
                        Some(t) => t.eq(s),
                        None => false,
                    };
                    assert(same == (scope_of(ls[i as int]) == Some(s@)));
                    if same {
                        assert(repeats_scope(ls, j as int));
                        assert(first_conflict_from(ls, j as int) == scope_of(ls[j as int]));
                        return Some(s.clone());
                    }
                    i += 1;
                }
                assert(!repeats_scope(ls, j as int));
            },
            None => {},
        }
        assert(first_conflict_from(ls, j as int) == first_conflict_from(ls, j + 1));
        scopes.push(sj);
        j += 1;
    }
    None
}

/// Law: a list of labels passes the one-label-per-scope check exactly when
/// no two of its labels share a scope.
pub proof fn lemma_no_conflict_iff_distinct_scopes(labels: Seq<Seq<char>>)
    ensures
        first_conflict_from(labels, 0) is None <==> forall|i: int, j: int|
            0 <= i < j < labels.len() && (#[trigger] scope_of(labels[i])) is Some ==> scope_of(
                labels[i],
            ) != #[trigger] scope_of(labels[j]),
{
    lemma_no_conflict_from(labels, 0);
    if first_conflict_from(labels, 0) is None {
        assert forall|i: int, j: int|
            0 <= i < j < labels.len() && (#[trigger] scope_of(labels[i])) is Some implies scope_of(
                labels[i],
            ) != #[trigger] scope_of(labels[j]) by {
            if scope_of(labels[i]) == scope_of(labels[j]) {
                assert(!repeats_scope(labels, j));
                assert(scope_seen_before(labels, j, scope_of(labels[j])->0));
            }
        }
    }
}

/// Whether no two labels share a scope.
pub open spec fn distinct_scopes(labels: Seq<Seq<char>>) -> bool {
    forall|i: int, j: int|
        0 <= i < j < labels.len() && (#[trigger] scope_of(labels[i])) is Some ==> scope_of(labels[i])
            != #[trigger] scope_of(labels[j])
}

proof fn lemma_distinct_scopes_reindexed(l: Seq<Seq<char>>, q: Seq<Seq<char>>, h: spec_fn(int) -> int)
    requires
        q.len() == l.len(),
        forall|k: int| 0 <= k < q.len() ==> 0 <= #[trigger] h(k) < l.len() && q[k] == l[h(k)],
        forall|a: int, b: int| 0 <= a < q.len() && 0 <= b < q.len() && a != b ==> #[trigger] h(a) != #[trigger] h(b),
        distinct_scopes(l),
    ensures
        distinct_scopes(q),
{
    assert forall|i: int, j: int|
        0 <= i < j < q.len() && (#[trigger] scope_of(q[i])) is Some implies scope_of(q[i]) != #[trigger] scope_of(
            q[j],
        ) by {
        let a = h(i);
        let b = h(j);
        assert(a != b);
        assert(q[i] == l[a] && q[j] == l[b]);
        if a < b {
            assert(scope_of(l[a]) is Some ==> scope_of(l[a]) != scope_of(l[b]));
        } else {
            assert(scope_of(l[b]) is Some ==> scope_of(l[b]) != scope_of(l[a]));
        }
    }
}

/// Whether labels conflict does not depend on their order: for a
/// reordering `p` of `labels` (label `k` of `p` is label `f(k)` of
/// `labels`, and `f` and `g` undo each other), the one-label-per-scope check refuses
/// `p` exactly when it refuses `labels`.
pub proof fn lemma_conflict_independent_of_order(
    labels: Seq<Seq<char>>,
    p: Seq<Seq<char>>,
    f: spec_fn(int) -> int,
    g: spec_fn(int) -> int,
)
    requires
        p.len() == labels.len(),
        forall|k: int| 0 <= k < p.len() ==> 0 <= #[trigger] f(k) < labels.len() && p[k] == labels[f(k)] && g(f(k)) == k,
        forall|m: int| 0 <= m < labels.len() ==> 0 <= #[trigger] g(m) < p.len() && f(g(m)) == m,
    ensures
        first_conflict_from(p, 0) is None <==> first_conflict_from(labels, 0) is None,
{
    lemma_no_conflict_iff_distinct_scopes(labels);
    lemma_no_conflict_iff_distinct_scopes(p);
    assert forall|a: int, b: int| 0 <= a < p.len() && 0 <= b < p.len() && a != b implies #[trigger] f(a)
        != #[trigger] f(b) by {
        if f(a) == f(b) {
            assert(g(f(a)) == a && g(f(b)) == b);
        }
    }
    assert forall|m: int| 0 <= m < labels.len() implies 0 <= #[trigger] g(m) < p.len() && labels[m] == p[g(m)] by {
        assert(p[g(m)] == labels[f(g(m))]);
    }
    assert forall|a: int, b: int|
        0 <= a < labels.len() && 0 <= b < labels.len() && a != b implies #[trigger] g(a) != #[trigger] g(b) by {
        if g(a) == g(b) {
            assert(f(g(a)) == a && f(g(b)) == b);
        }
    }
    if distinct_scopes(labels) {
        lemma_distinct_scopes_reindexed(labels, p, f);
    }
    if distinct_scopes(p) {
        lemma_distinct_scopes_reindexed(p, labels, g);
    }
}

proof fn lemma_no_conflict_from(labels: Seq<Seq<char>>, k: int)
    requires
        0 <= k,
    ensures
        first_conflict_from(labels, k) is None <==> forall|j: int|
            k <= j < labels.len() ==> !#[trigger] repeats_scope(labels, j),
    decreases labels.len() - k,
{
    if k < labels.len() {
        lemma_no_conflict_from(labels, k + 1);
        if repeats_scope(labels, k) {
            let s = scope_of(labels[k]);
            assert(s is Some);
        }
    }
}

/// The labels of an issue after a change: those not removed, in their
/// order, followed by the added ones.
pub open spec fn labels_after(current: Seq<Seq<char>>, add: Seq<Seq<char>>, remove: Seq<Seq<char>>) -> Seq<Seq<char>> {
    current.filter(|l: Seq<char>| !remove.contains(l)) + add
}

fn contains_text(v: &[String], x: &String) -> (r: bool)
    ensures
        r == texts(v@).contains(x@),
{
    let mut i: usize = 0;
    while i < v.len()
        invariant
            i <= v@.len(),
            forall|k: int| 0 <= k < i ==> v@[k]@ != x@,
        decreases v@.len() - i,
    {
        if v[i].eq(x) {
            assert(texts(v@)[i as int] == x@);
            return true;
        }
        i += 1;
    }
    assert forall|k: int| 0 <= k < texts(v@).len() implies texts(v@)[k] != x@ by {
        assert(v@[k]@ != x@);
    }
    false
}

/// The labels an issue would carry after removing some and adding others,
/// as computed before the one-label-per-scope check.
pub fn labels_after_change(current: &[String], add: &[String], remove: &[String]) -> (r: Vec<String>)
    ensures
        texts(r@) == labels_after(texts(current@), texts(add@), texts(remove@)),
{
    let ghost rm = texts(remove@);
    let ghost pred = |l: Seq<char>| !rm.contains(l);
    let mut r: Vec<String> = Vec::new();
    let mut i: usize = 0;
    while i < current.len()
        invariant
            i <= current@.len(),
            rm == texts(remove@),
            pred == (|l: Seq<char>| !rm.contains(l)),
            texts(r@) == texts(current@).take(i as int).filter(pred),
        decreases current@.len() - i,
    {
        proof {
            reveal_with_fuel(Seq::<_>::filter, 1);
            assert(texts(current@).take(i + 1).drop_last() =~= texts(current@).take(i as int));
        }
        let removed = contains_text(remove, &current[i]);
        if !removed {
            r.push(current[i].clone());
            assert(texts(r@) =~= texts(current@).take(i as int).filter(pred).push(current@[i as int]@));
        }
        i += 1;
    }
    assert(texts(current@).take(i as int) =~= texts(current@));
    let ghost kept = texts(r@);
    let mut k: usize = 0;
    while k < add.len()
        invariant
            k <= add@.len(),
            texts(r@) == kept + texts(add@).take(k as int),
        decreases add@.len() - k,
    {
        let ghost before = texts(r@);
        r.push(add[k].clone());
        assert(texts(r@) =~= before.push(add@[k as int]@));
        assert(texts(add@).take(k + 1) =~= texts(add@).take(k as int).push(add@[k as int]@));
        assert(texts(r@) =~= kept + texts(add@).take(k + 1));
        k += 1;
    }
    assert(texts(add@).take(k as int) =~= texts(add@));
    r
}

/// `char::is_ascii_hexdigit`: `0-9`, `a-f` or `A-F`.
pub open spec fn is_hex_digit(c: char) -> bool {
    ('0' <= c && c <= '9') || ('a' <= c && c <= 'f') || ('A' <= c && c <= 'F')
}

/// A color in the form `#rrggbb` (seven characters: `#` and six hex digits).
pub open spec fn valid_hex_color(s: Seq<char>) -> bool {
    &&& s.len() == 7
    &&& s[0] == '#'
    &&& forall|i: int| 1 <= i < 7 ==> #[trigger] is_hex_digit(s[i])
}

/// Whether a label color is a valid hex color such as `#ff0000`.
pub fn is_valid_hex_color(s: &str) -> (b: bool)
    ensures
        b == valid_hex_color(s@),
{
    let cs = chars_of(s);
    if cs.len() != 7 || cs[0] != '#' {
        return false;
    }
    let mut i: usize = 1;
    while i < 7
        invariant
            1 <= i <= 7,
            cs@ == s@,
            cs@.len() == 7,
            forall|k: int| 1 <= k < i ==> #[trigger] is_hex_digit(cs@[k]),
        decreases 7 - i,
    {
        let c = cs[i];
        if !(('0' <= c && c <= '9') || ('a' <= c && c <= 'f') || ('A' <= c && c <= 'F')) {
            assert(!is_hex_digit(s@[i as int]));
            return false;
        }
        i += 1;
    }
    true
}

/// `u8::to_ascii_lowercase` on characters: `A-Z` become `a-z`, the rest stays.
pub open spec fn ascii_lower(c: char) -> int {
    if 'A' <= c && c <= 'Z' {
        (c as u32) + 32
    } else {
        c as u32 as int
    }
}

/// `str::eq_ignore_ascii_case`: equal up to the case of ASCII letters.
pub open spec fn same_ignoring_ascii_case(a: Seq<char>, b: Seq<char>) -> bool {
    a.len() == b.len() && forall|i: int| 0 <= i < a.len() ==> #[trigger] ascii_lower(a[i]) == ascii_lower(b[i])
}

/// Compares two texts ignoring the case of ASCII letters.
pub fn eq_ignore_ascii_case(a: &str, b: &str) -> (r: bool)
    ensures
        r == same_ignoring_ascii_case(a@, b@),
{
    let x = chars_of(a);
    let y = chars_of(b);
    if x.len() != y.len() {
        return false;
    }
    let mut i: usize = 0;
    while i < x.len()
        invariant
            i <= x@.len() == y@.len(),
            x@ == a@,
            y@ == b@,
            forall|k: int| 0 <= k < i ==> #[trigger] ascii_lower(x@[k]) == ascii_lower(y@[k]),
        decreases x@.len() - i,
    {
        let c = x[i];
        let d = y[i];
        let lc: u32 = if 'A' <= c && c <= 'Z' { (c as u32) + 32 } else { c as u32 };
        let ld: u32 = if 'A' <= d && d <= 'Z' { (d as u32) + 32 } else { d as u32 };
        if lc != ld {
            assert(ascii_lower(a@[i as int]) != ascii_lower(b@[i as int]));
            return false;
        }
        i += 1;
    }
    true
}

/// Law: a valid color is `#` and six hex digits: seven characters, the
/// first `#`, each other a digit or a letter from `a` to `f` in either
/// case; `#` with six decimal digits is always valid.
pub proof fn lemma_hex_colors(s: Seq<char>)
    ensures
        valid_hex_color(s) ==> s.len() == 7 && s[0] == '#' && forall|i: int|
            1 <= i < 7 ==> ('0' <= #[trigger] s[i] <= '9') || ('a' <= s[i] <= 'f') || ('A' <= s[i] <= 'F'),
        (s.len() == 7 && s[0] == '#' && forall|i: int| 1 <= i < 7 ==> '0' <= #[trigger] s[i] <= '9')
            ==> valid_hex_color(s),
{
    if valid_hex_color(s) {
        assert forall|i: int| 1 <= i < 7 implies ('0' <= #[trigger] s[i] <= '9') || ('a' <= s[i] <= 'f')
            || ('A' <= s[i] <= 'F') by {
            assert(is_hex_digit(s[i]));
        }
    }
    if s.len() == 7 && s[0] == '#' && forall|i: int| 1 <= i < 7 ==> '0' <= #[trigger] s[i] <= '9' {
        assert forall|i: int| 1 <= i < 7 implies #[trigger] is_hex_digit(s[i]) by {
            assert('0' <= s[i] <= '9');
        }
    }
}

/// Law: comparing names ignoring ASCII case is an equivalence that only
/// relates names of equal length, and equal names are always the same.
pub proof fn lemma_same_ignoring_case(a: Seq<char>, b: Seq<char>, c: Seq<char>)
    ensures
        a == b ==> same_ignoring_ascii_case(a, b),
        same_ignoring_ascii_case(a, b) ==> same_ignoring_ascii_case(b, a) && a.len() == b.len(),
        same_ignoring_ascii_case(a, b) && same_ignoring_ascii_case(b, c) ==> same_ignoring_ascii_case(a, c),
{
    if same_ignoring_ascii_case(a, b) && same_ignoring_ascii_case(b, c) {
        assert forall|i: int| 0 <= i < a.len() implies #[trigger] ascii_lower(a[i]) == ascii_lower(c[i]) by {
            assert(ascii_lower(a[i]) == ascii_lower(b[i]));
            assert(ascii_lower(b[i]) == ascii_lower(c[i]));
        }
    }
    if same_ignoring_ascii_case(a, b) {
        assert forall|i: int| 0 <= i < b.len() implies #[trigger] ascii_lower(b[i]) == ascii_lower(a[i]) by {
            assert(ascii_lower(a[i]) == ascii_lower(b[i]));
        }
    }
}

/// Why a label definition is refused.
#[derive(Clone, Copy, PartialEq, Eq, Structural, Debug)]
pub enum LabelError {
    /// "Label name cannot be empty"
    EmptyName,
    /// "Color must be a valid hex color (e.g. #ff0000)"
    InvalidColor,
    /// "Label not found"
    NotFound,
    /// "A label with this name already exists"
    DuplicateName,
}

/// A label definition as stored.
pub struct LabelFields {
    pub name: String,
    pub color: String,
    pub description: String,
}

/// The text of an optional string, or the empty text.
pub open spec fn text_or_empty(s: Option<&str>) -> Seq<char> {
    match s {
        Some(t) => t@,
        None => Seq::empty(),
    }
}

/// The fields of a new label: the name trimmed and not empty, the color
/// trimmed, lowercased and a valid hex color, the description trimmed.
pub fn new_label(name: &str, color: &str, description: Option<&str>) -> (r: Result<LabelFields, LabelError>)
    ensures
        trim(name@).len() == 0 ==> r == Err::<LabelFields, LabelError>(LabelError::EmptyName),
        trim(name@).len() != 0 && !valid_hex_color(lowercase_of(trim(color@))) ==> r == Err::<
            LabelFields,
            LabelError,
        >(LabelError::InvalidColor),
        r matches Ok(l) ==> l.name@ == trim(name@) && l.color@ == lowercase_of(trim(color@))
            && l.description@ == trim(text_or_empty(description)),
        trim(name@).len() != 0 && valid_hex_color(lowercase_of(trim(color@))) ==> r is Ok,
{
    let name = trimmed(name);
    if name.as_str().is_empty() {
        return Err(LabelError::EmptyName);
    }
    let color_trimmed = trimmed(color);
    let color = to_lowercase(color_trimmed.as_str());
    if !is_valid_hex_color(color.as_str()) {
        return Err(LabelError::InvalidColor);
    }
    let description = match description {
        Some(d) => trimmed(d),
        None => {
            proof {
                reveal_strlit("");
            }
            trimmed("")
        },
    };
    Ok(LabelFields { name, color, description })
}

/// A label after an edit, and whether its name changed (other than in the
/// case of ASCII letters).
pub struct LabelUpdate {
    pub fields: LabelFields,
    pub renamed: bool,
}

/// The fields of an edited label: each given field trimmed (the color also
/// lowercased), each missing one kept; the resulting color must be a valid
/// hex color.
pub fn label_update(
    existing: &LabelFields,
    name: Option<&str>,
    color: Option<&str>,
    description: Option<&str>,
) -> (r: Result<LabelUpdate, LabelError>)
    ensures
        ({
            let new_color = match color {
                Some(c) => lowercase_of(trim(c@)),
                None => existing.color@,
            };
            &&& !valid_hex_color(new_color) ==> r == Err::<LabelUpdate, LabelError>(
                LabelError::InvalidColor,
            )
            &&& valid_hex_color(new_color) ==> r is Ok
            &&& r matches Ok(u) ==> {
                let new_name = match name {
                    Some(n) => trim(n@),
                    None => existing.name@,
                };
                &&& u.fields.name@ == new_name
                &&& u.fields.color@ == new_color
                &&& u.fields.description@ == match description {
                    Some(d) => trim(d@),
                    None => existing.description@,
                }
                &&& u.renamed == !same_ignoring_ascii_case(new_name, existing.name@)
            }
        }),
{
    let new_name = match name {
        Some(n) => trimmed(n),
        None => existing.name.clone(),
    };
    let new_color = match color {
        Some(c) => {
            let t = trimmed(c);
            to_lowercase(t.as_str())
        },
        None => existing.color.clone(),
    };
    let new_description = match description {
        Some(d) => trimmed(d),
        None => existing.description.clone(),
    };
    if !is_valid_hex_color(new_color.as_str()) {
        return Err(LabelError::InvalidColor);
    }
    let renamed = !eq_ignore_ascii_case(new_name.as_str(), existing.name.as_str());
    Ok(LabelUpdate {
        fields: LabelFields { name: new_name, color: new_color, description: new_description },
        renamed,
    })
}

/// Checks a new label (see [`new_label`]) and then that the repository has
/// no label of that name yet (`taken`, compared without regard to case).
pub fn check_new_label(name: &str, color: &str, description: Option<&str>, taken: bool) -> (r: Result<LabelFields, LabelError>)
    ensures
        trim(name@).len() == 0 ==> r == Err::<LabelFields, LabelError>(LabelError::EmptyName),
        trim(name@).len() != 0 && !valid_hex_color(lowercase_of(trim(color@))) ==> r == Err::<
            LabelFields,
            LabelError,
        >(LabelError::InvalidColor),
        trim(name@).len() != 0 && valid_hex_color(lowercase_of(trim(color@))) && taken ==> r == Err::<
            LabelFields,
            LabelError,
        >(LabelError::DuplicateName),
        trim(name@).len() != 0 && valid_hex_color(lowercase_of(trim(color@))) && !taken ==> r is Ok,
        r matches Ok(l) ==> l.name@ == trim(name@) && l.color@ == lowercase_of(trim(color@))
            && l.description@ == trim(text_or_empty(description)),
{
    let fields = new_label(name, color, description)?;
    if taken {
        Err(LabelError::DuplicateName)
    } else {
        Ok(fields)
    }
}

/// Checks an edit of a label: it must exist (`existing`), the edit must
/// give a valid label (see [`label_update`]), and a renamed label must not
/// take the name of another label (`conflicts`, only asked when renamed).
pub fn check_label_update(
    existing: Option<&LabelFields>,
    name: Option<&str>,
    color: Option<&str>,
    description: Option<&str>,
    conflicts: bool,
) -> (r: Result<LabelUpdate, LabelError>)
    ensures
        existing is None ==> r == Err::<LabelUpdate, LabelError>(LabelError::NotFound),
        existing matches Some(e) ==> {
            let new_color = match color {
                Some(c) => lowercase_of(trim(c@)),
                None => e.color@,
            };
            let new_name = match name {
                Some(n) => trim(n@),
                None => e.name@,
            };
            let renamed = !same_ignoring_ascii_case(new_name, e.name@);
            &&& !valid_hex_color(new_color) ==> r == Err::<LabelUpdate, LabelError>(LabelError::InvalidColor)
            &&& valid_hex_color(new_color) && renamed && conflicts ==> r == Err::<LabelUpdate, LabelError>(
                LabelError::DuplicateName,
            )
            &&& valid_hex_color(new_color) && !(renamed && conflicts) ==> r is Ok
            &&& r matches Ok(u) ==> {
                &&& u.fields.name@ == new_name
                &&& u.fields.color@ == new_color
                &&& u.fields.description@ == match description {
                    Some(d) => trim(d@),
                    None => e.description@,
                }
                &&& u.renamed == renamed
            }
        },
{
    let e = match existing {
        Some(e) => e,
        None => {
            return Err(LabelError::NotFound);
        },
    };
    let u = label_update(e, name, color, description)?;
    if u.renamed && conflicts {
        Err(LabelError::DuplicateName)
    } else {
        Ok(u)
    }
}

/// The labels every new repository starts with: name, color and
/// description.
pub fn default_labels() -> (r: Vec<(&'static str, &'static str, Option<&'static str>)>)
    ensures
        r@.len() == 14,
        forall|i: int| 0 <= i < r@.len() ==> valid_hex_color((#[trigger] r@[i]).1@),
{
    proof {
        reveal_strlit("#5c6bc0");
        reveal_strlit("#e53935");
        reveal_strlit("#f4511e");
        reveal_strlit("#00897b");
        reveal_strlit("#2e7d32");
        reveal_strlit("#388e3c");
        reveal_strlit("#bdbdbd");
        reveal_strlit("#ab47bc");
        reveal_strlit("#b71c1c");
    }
    vec![
        ("type::bug", "#5c6bc0", None),
        ("type::feature", "#5c6bc0", None),
        ("type::docs", "#5c6bc0", None),
        ("type::chore", "#5c6bc0", Some("Maintenance tasks: dependency updates, CI config, tooling")),
        ("type::refactor", "#5c6bc0", Some("Internal code restructuring with no functional change")),
        ("status::blocked", "#e53935", None),
        ("status::needs-info", "#f4511e", Some("Waiting on the issue reporter or a user for more information")),
        ("status::in-progress", "#00897b", None),
        ("good first issue", "#2e7d32", None),
        ("help wanted", "#388e3c", None),
        ("duplicate", "#bdbdbd", None),
        ("wontfix", "#bdbdbd", Some("Acknowledged but won't be addressed, see comments for reasoning")),
        ("question", "#ab47bc", None),
        ("security", "#b71c1c", Some("Involves a potential security vulnerability")),
    ]
}

} // verus!
