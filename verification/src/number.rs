//! Decimal numbers in text: parsing as `str::parse` does for `u32` and
//! `i32`, and writing as `Display` does.

use vstd::prelude::*;
use crate::text::push_char;

verus! {

/// Whether `c` is an ASCII decimal digit.
pub open spec fn is_digit(c: char) -> bool {
    '0' <= c && c <= '9'
}

/// The value of a decimal digit.
pub open spec fn digit_value(c: char) -> int {
    (c as u32) - 48
}

/// Whether `s` is a non-empty run of decimal digits.
pub open spec fn all_digits(s: Seq<char>) -> bool {
    s.len() > 0 && forall|i: int| 0 <= i < s.len() ==> #[trigger] is_digit(s[i])
}

/// The value of a run of decimal digits, most significant first.
pub open spec fn decimal_value(s: Seq<char>) -> int
    decreases s.len(),
{
    if s.len() == 0 {
        0
    } else {
        decimal_value(s.drop_last()) * 10 + digit_value(s.last())
    }
}

/// What `s.parse::<u32>()` gives: an optional `+`, then one or more digits
/// whose value fits in `u32`.
pub open spec fn parsed_u32(s: Seq<char>) -> Option<u32> {
    let d = if s.len() > 0 && s[0] == '+' {
        s.drop_first()
    } else {
        s
    };
    if all_digits(d) && decimal_value(d) <= u32::MAX {
        Some(decimal_value(d) as u32)
    } else {
        None
    }
}

/// What `s.parse::<i32>()` gives: an optional `+` or `-`, then one or more
/// digits whose signed value fits in `i32`.
pub open spec fn parsed_i32(s: Seq<char>) -> Option<i32> {
    let negative = s.len() > 0 && s[0] == '-';
    let d = if s.len() > 0 && (s[0] == '+' || s[0] == '-') {
        s.drop_first()
    } else {
        s
    };
    let v = if negative {
        -decimal_value(d)
    } else {
        decimal_value(d)
    };
    if all_digits(d) && i32::MIN <= v <= i32::MAX {
        Some(v as i32)
    } else {
        None
    }
}

proof fn lemma_decimal_value_grows(s: Seq<char>, i: int)
    requires
        0 <= i <= s.len(),
        forall|k: int| 0 <= k < s.len() ==> #[trigger] is_digit(s[k]),
    ensures
        decimal_value(s.take(i)) <= decimal_value(s),
        0 <= decimal_value(s.take(i)),
    decreases s.len() - i,
{
    if i < s.len() {
        lemma_decimal_value_grows(s, i + 1);
        assert(s.take(i + 1).drop_last() =~= s.take(i));
        assert(is_digit(s[i]));
    } else {
        assert(s.take(i) =~= s);
        lemma_decimal_value_nonneg(s);
    }
}

proof fn lemma_decimal_value_nonneg(s: Seq<char>)
    requires
        forall|k: int| 0 <= k < s.len() ==> #[trigger] is_digit(s[k]),
    ensures
        0 <= decimal_value(s),
    decreases s.len(),
{
    if s.len() > 0 {
        assert(is_digit(s[s.len() - 1]));
        lemma_decimal_value_nonneg(s.drop_last());
    }
}

/// The value of the digits `s[from..]` if they are one or more digits whose
/// value is at most `bound`.
fn digits_value(s: &[char], from: usize, bound: u64) -> (r: Option<u64>)
    requires
        from <= s.len(),
        bound <= 0x1_0000_0000,
    ensures
        ({
            let d = s@.skip(from as int);
            match r {
                Some(v) => all_digits(d) && decimal_value(d) <= bound && v == decimal_value(d),
                None => !(all_digits(d) && decimal_value(d) <= bound),
            }
        }),
{
    let ghost d = s@.skip(from as int);
    if from >= s.len() {
        return None;
    }
    let mut acc: u64 = 0;
    let mut i: usize = from;
    while i < s.len()
        invariant
            from <= i <= s.len(),
            d == s@.skip(from as int),
            forall|k: int| 0 <= k < i - from ==> #[trigger] is_digit(d[k]),
            acc == decimal_value(d.take(i - from)),
            acc <= bound,
            bound <= 0x1_0000_0000,
        decreases s.len() - i,
    {
        let c = s[i];
        if !('0' <= c && c <= '9') {
            assert(!is_digit(d[i - from]));
            return None;
        }
        let digit = (c as u32 - 48) as u64;
        assert(d.take(i + 1 - from).drop_last() =~= d.take(i - from));
        if acc * 10 + digit > bound {
            proof {
                assert(forall|k: int| 0 <= k < i + 1 - from ==> #[trigger] is_digit(d.take(i + 1 - from)[k]));
                if all_digits(d) {
                    lemma_decimal_value_grows(d, i + 1 - from);
                }
            }
            return None;
        }
        acc = acc * 10 + digit;
        i += 1;
    }
    assert(d.take(i - from) =~= d);
    Some(acc)
}

/// `s.parse::<u32>()`, with any error as nothing.
pub fn parse_u32(s: &[char]) -> (r: Option<u32>)
    ensures
        r == parsed_u32(s@),
{
    let start: usize = if s.len() > 0 && s[0] == '+' { 1 } else { 0 };
    assert(start == 1 ==> s@.skip(1) =~= s@.drop_first());
    assert(start == 0 ==> s@.skip(0) =~= s@);
    match digits_value(s, start, 0xffff_ffff) {
        Some(v) => Some(v as u32),
        None => None,
    }
}

/// `s.parse::<i32>()`, with any error as nothing.
pub fn parse_i32(s: &[char]) -> (r: Option<i32>)
    ensures
        r == parsed_i32(s@),
{
    let negative = s.len() > 0 && s[0] == '-';
    let start: usize = if s.len() > 0 && (s[0] == '+' || s[0] == '-') { 1 } else { 0 };
    assert(start == 1 ==> s@.skip(1) =~= s@.drop_first());
    assert(start == 0 ==> s@.skip(0) =~= s@);
    let bound: u64 = if negative { 0x8000_0000 } else { 0x7fff_ffff };
    match digits_value(s, start, bound) {
        Some(v) => {
            if negative {
                Some((0 - (v as i64)) as i32)
            } else {
                Some(v as i32)
            }
        },
        None => None,
    }
}

/// The decimal digit character for a value below ten.
pub open spec fn digit_char(d: int) -> char {
    (48 + d) as char
}

/// The decimal text of a number, as `Display` writes it.
pub open spec fn decimal_text(n: nat) -> Seq<char>
    decreases n,
{
    if n < 10 {
        seq![digit_char(n as int)]
    } else {
        decimal_text(n / 10).push(digit_char((n % 10) as int))
    }
}

/// Appends the decimal text of `n` to `s`.
pub fn push_decimal(s: &mut String, n: u64)
    ensures
        final(s)@ == old(s)@ + decimal_text(n as nat),
    decreases n,
{
    if n >= 10 {
        push_decimal(s, n / 10);
    }
    let d: u8 = (n % 10) as u8;
    push_char(s, (48u8 + d) as char);
    assert(((48u8 + d) as char) == digit_char((n % 10) as int));
    if n >= 10 {
        assert(decimal_text(n as nat) == decimal_text((n / 10) as nat).push(digit_char((n % 10) as int)));
    } else {
        assert(decimal_text(n as nat) =~= seq![digit_char((n % 10) as int)]);
    }
}

proof fn lemma_decimal_text_value(n: nat)
    ensures
        all_digits(decimal_text(n)),
        decimal_value(decimal_text(n)) == n,
        decimal_text(n)[0] != '+' && decimal_text(n)[0] != '-',
    decreases n,
{
    let d = (n % 10) as int;
    assert(digit_value(digit_char(d)) == d);
    if n < 10 {
        let t = seq![digit_char(n as int)];
        assert(t.drop_last() =~= Seq::<char>::empty());
        assert(decimal_value(t) == decimal_value(t.drop_last()) * 10 + digit_value(t.last()));
    } else {
        lemma_decimal_text_value(n / 10);
        let t = decimal_text(n / 10);
        assert(decimal_text(n).drop_last() =~= t);
        assert(decimal_text(n).last() == digit_char(d));
        assert(decimal_value(decimal_text(n)) == decimal_value(t) * 10 + digit_value(digit_char(d)));
        assert((n / 10) * 10 + n % 10 == n) by (nonlinear_arith);
        assert(decimal_text(n)[0] == t[0]);
        assert forall|i: int| 0 <= i < decimal_text(n).len() implies #[trigger] is_digit(decimal_text(n)[i]) by {
            if i < t.len() {
                assert(decimal_text(n)[i] == t[i]);
            }
        }
    }
}

/// Reading back what is written gives the number written: the decimal text
/// of any `u32` parses as that `u32`, and of any `i32` (after a `-` when
/// it is negative) as that `i32`.
pub proof fn lemma_decimal_round_trip(n: u32, m: i32)
    ensures
        parsed_u32(decimal_text(n as nat)) == Some(n),
        m >= 0 ==> parsed_i32(decimal_text(m as nat)) == Some(m),
        m < 0 ==> parsed_i32(seq!['-'] + decimal_text((-m) as nat)) == Some(m),
{
    lemma_decimal_text_value(n as nat);
    if m >= 0 {
        lemma_decimal_text_value(m as nat);
    } else {
        let t = decimal_text((-m) as nat);
        lemma_decimal_text_value((-m) as nat);
        assert((seq!['-'] + t).drop_first() =~= t);
    }
}

} // verus!
