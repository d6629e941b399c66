//! Readers for the textual forms of integers, booleans and floating-point
//! numbers, following the grammar that Rust's standard `FromStr` impls
//! accept.
use vstd::prelude::*;

use crate::text::{chars_of, eq_ascii_ci, same_text_ascii_ci};

verus! {

pub open spec fn is_digit(c: char) -> bool {
    '0' <= c && c <= '9'
}

pub open spec fn all_digits(d: Seq<char>) -> bool {
    forall|i: int| 0 <= i < d.len() ==> is_digit(#[trigger] d[i])
}

/// The value of a string of decimal digits.
pub open spec fn digits_value(d: Seq<char>) -> int
    decreases d.len(),
{
    if d.len() == 0 {
        0
    } else {
        digits_value(d.drop_last()) * 10 + (d.last() as int - '0' as int)
    }
}

/// The string without a leading `+` or `-`.
pub open spec fn unsigned_part(s: Seq<char>) -> Seq<char> {
    if s.len() > 0 && (s[0] == '-' || s[0] == '+') {
        s.drop_first()
    } else {
        s
    }
}

/// The integer a string spells: an optional sign, then one or more decimal
/// digits.
pub open spec fn int_literal(s: Seq<char>) -> Option<int> {
    let d = unsigned_part(s);
    if d.len() > 0 && all_digits(d) {
        if s[0] == '-' {
            Some(-digits_value(d))
        } else {
            Some(digits_value(d))
        }
    } else {
        None
    }
}

/// The integer a string spells, when it lies in `lo ..= hi`.
pub open spec fn int_in_range(s: Seq<char>, lo: int, hi: int) -> Option<int> {
    match int_literal(s) {
        Some(v) => if lo <= v <= hi { Some(v) } else { None },
        None => None,
    }
}

proof fn lemma_digits_value_nonneg(d: Seq<char>)
    requires
        all_digits(d),
    ensures
        digits_value(d) >= 0,
    decreases d.len(),
{
    if d.len() > 0 {
        lemma_digits_value_nonneg(d.drop_last());
    }
}

const MAGNITUDE_CAP: u128 = 0x1_0000_0000_0000_0000;

/// Reads an integer in `lo ..= hi`; `None` when the text is no integer or the
/// value lies outside the range.
pub fn parse_int(s: &str, lo: i64, hi: i64) -> (r: Option<i64>)
    requires
        lo <= 0 <= hi,
    ensures
        match int_in_range(s@, lo as int, hi as int) {
            Some(v) => r == Some(v as i64),
            None => r is None,
        },
{
    let c = chars_of(s);
    if c.len() == 0 {
        return None;
    }
    let neg = c[0] == '-';
    let start: usize = if c[0] == '-' || c[0] == '+' { 1 } else { 0 };
    let ghost d = unsigned_part(s@);
    proof {
        assert(d =~= c@.subrange(start as int, c.len() as int));
    }
    if start == c.len() {
        return None;
    }
    let mut mag: u128 = 0;
    let mut big = false;
    let mut i: usize = start;
    while i < c.len()
        invariant
            c@ == s@,
            start <= i <= c.len(),
            d == unsigned_part(s@),
            d == c@.subrange(start as int, c.len() as int),
            all_digits(c@.subrange(start as int, i as int)),
            !big ==> mag as int == digits_value(c@.subrange(start as int, i as int)) && mag <= MAGNITUDE_CAP,
            big ==> digits_value(c@.subrange(start as int, i as int)) > MAGNITUDE_CAP,
        decreases c.len() - i,
    {
        let ch = c[i];
        if !('0' <= ch && ch <= '9') {
            proof {
                assert(d[i - start] == ch);
                assert(!is_digit(d[i - start]));
            }
            return None;
        }
        let ghost prev = c@.subrange(start as int, i as int);
        let ghost next = c@.subrange(start as int, i + 1);
        proof {
            assert(next.drop_last() =~= prev);
            assert(next.last() == ch);
            lemma_digits_value_nonneg(prev);
        }
        let digit = (ch as u32 - '0' as u32) as u128;
        if !big {
            let m = mag * 10 + digit;
            if m > MAGNITUDE_CAP {
                big = true;
            } else {
                mag = m;
            }
        } else {
            proof {
                assert(digits_value(prev) * 10 >= digits_value(prev)) by (nonlinear_arith)
                    requires digits_value(prev) >= 0;
            }
        }
        i = i + 1;
    }
    proof {
        assert(c@.subrange(start as int, c.len() as int) == d);
        assert(int_literal(s@) == Some(if neg { -digits_value(d) } else { digits_value(d) }));
    }
    if big {
        return None;
    }
    if neg {
        if mag > (0 - (lo as i128)) as u128 {
            return None;
        }
        Some((0 - (mag as i128)) as i64)
    } else {
        if mag > hi as u128 {
            return None;
        }
        Some(mag as i64)
    }
}

/// The text `true` or `false`, read as a boolean.
pub open spec fn bool_literal(s: Seq<char>) -> Option<bool> {
    if s == seq!['t', 'r', 'u', 'e'] {
        Some(true)
    } else if s == seq!['f', 'a', 'l', 's', 'e'] {
        Some(false)
    } else {
        None
    }
}

/// Reads `true` or `false`.
pub fn parse_bool(s: &str) -> (r: Option<bool>)
    ensures
        r == bool_literal(s@),
{
    let t = "true";
    let f = "false";
    proof {
        reveal_strlit("true");
        reveal_strlit("false");
        assert(t@ =~= seq!['t', 'r', 'u', 'e']);
        assert(f@ =~= seq!['f', 'a', 'l', 's', 'e']);
    }
    if crate::text::same_text(s, t) {
        Some(true)
    } else if crate::text::same_text(s, f) {
        Some(false)
    } else {
        None
    }
}

/// The mantissa of a decimal number: digits with at most one `.`, and at
/// least one digit.
pub open spec fn mantissa_ok(m: Seq<char>) -> bool {
    &&& forall|i: int| 0 <= i < m.len() ==> is_digit(#[trigger] m[i]) || m[i] == '.'
    &&& forall|i: int, j: int| 0 <= i < m.len() && 0 <= j < m.len() && m[i] == '.' && m[j] == '.' ==> i == j
    &&& m.len() > 0
    &&& m != seq!['.']
}

/// An exponent after the `e`: an optional sign, then one or more digits.
pub open spec fn exponent_ok(x: Seq<char>) -> bool {
    unsigned_part(x).len() > 0 && all_digits(unsigned_part(x))
}

/// A decimal number: a mantissa, then optionally `e` or `E` and an exponent.
pub open spec fn number_ok(t: Seq<char>) -> bool {
    ||| mantissa_ok(t)
    ||| exists|p: int|
        0 <= p < t.len() && (t[p] == 'e' || t[p] == 'E') && #[trigger] mantissa_ok(t.take(p)) && exponent_ok(t.skip(p + 1))
}

/// The textual forms of a floating-point number: an optional sign, then
/// `inf`, `infinity` or `nan` in any case, or a decimal number.
pub open spec fn float_literal(s: Seq<char>) -> bool {
    let t = unsigned_part(s);
    ||| eq_ascii_ci(t, seq!['i', 'n', 'f'])
    ||| eq_ascii_ci(t, seq!['i', 'n', 'f', 'i', 'n', 'i', 't', 'y'])
    ||| eq_ascii_ci(t, seq!['n', 'a', 'n'])
    ||| number_ok(t)
}

fn mantissa_check(c: &Vec<char>, from: usize, to: usize) -> (r: bool)
    requires
        from <= to <= c.len(),
    ensures
        r == mantissa_ok(c@.subrange(from as int, to as int)),
{
    let ghost m = c@.subrange(from as int, to as int);
    let mut dots: usize = 0;
    let mut dot_at: usize = 0;
    let mut i: usize = from;
    while i < to
        invariant
            from <= i <= to <= c.len(),
            m == c@.subrange(from as int, to as int),
            dots <= 1,
            forall|k: int| 0 <= k < i - from ==> is_digit(#[trigger] m[k]) || m[k] == '.',
            dots == 0 ==> forall|k: int| 0 <= k < i - from ==> m[k] != '.',
            dots == 1 ==> from <= dot_at < i && m[dot_at - from] == '.',
            dots == 1 ==> forall|k: int| 0 <= k < i - from && m[k] == '.' ==> k == dot_at - from,
        decreases to - i,
    {
        let ch = c[i];
        assert(m[i - from] == ch);
        if ch == '.' {
            if dots == 1 {
                return false;
            }
            dots = 1;
            dot_at = i;
        } else if !('0' <= ch && ch <= '9') {
            return false;
        }
        i = i + 1;
    }
    if to == from {
        return false;
    }
    if to - from == 1 && c[from] == '.' {
        assert(m =~= seq!['.']);
        return false;
    }
    proof {
        assert(m.len() == to - from);
        if m == seq!['.'] {
            assert(m[0] == '.');
            assert(m[0] == c@[from as int]);
        }
    }
    true
}

fn exponent_check(c: &Vec<char>, from: usize) -> (r: bool)
    requires
        from <= c.len(),
    ensures
        r == exponent_ok(c@.subrange(from as int, c.len() as int)),
{
    let ghost x = c@.subrange(from as int, c.len() as int);
    let start: usize = if from < c.len() && (c[from] == '-' || c[from] == '+') { from + 1 } else { from };
    proof {
        assert(unsigned_part(x) =~= c@.subrange(start as int, c.len() as int));
    }
    if start == c.len() {
        return false;
    }
    let mut i: usize = start;
    while i < c.len()
        invariant
            from <= start <= i <= c.len(),
            unsigned_part(c@.subrange(from as int, c.len() as int)) == c@.subrange(start as int, c.len() as int),
            all_digits(c@.subrange(start as int, i as int)),
        decreases c.len() - i,
    {
        if !('0' <= c[i] && c[i] <= '9') {
            assert(c@.subrange(start as int, c.len() as int)[i - start] == c@[i as int]);
            assert(!is_digit(c@.subrange(start as int, c.len() as int)[i - start]));
            return false;
        }
        i = i + 1;
    }
    true
}

/// Whether a string is one of the textual forms of a floating-point number.
pub fn is_float_literal(s: &str) -> (r: bool)
    ensures
        r == float_literal(s@),
{
    let c = chars_of(s);
    let start: usize = if c.len() > 0 && (c[0] == '-' || c[0] == '+') { 1 } else { 0 };
    let ghost t = unsigned_part(s@);
    proof {
        assert(t =~= c@.subrange(start as int, c.len() as int));
    }
    let rest = s.substring_char(start, c.len());
    let inf = "inf";
    let infinity = "infinity";
    let nan = "nan";
    proof {
        reveal_strlit("inf");
        reveal_strlit("infinity");
        reveal_strlit("nan");
        assert(inf@ =~= seq!['i', 'n', 'f']);
        assert(infinity@ =~= seq!['i', 'n', 'f', 'i', 'n', 'i', 't', 'y']);
        assert(nan@ =~= seq!['n', 'a', 'n']);
    }
    if same_text_ascii_ci(rest, inf) || same_text_ascii_ci(rest, infinity) || same_text_ascii_ci(rest, nan) {
        return true;
    }
    let mut e: usize = start;
    while e < c.len() && c[e] != 'e' && c[e] != 'E'
        invariant
            start <= e <= c.len(),
            forall|k: int| start <= k < e ==> c@[k] != 'e' && c@[k] != 'E',
        decreases c.len() - e,
    {
        e = e + 1;
    }
    let r = if e == c.len() {
        mantissa_check(&c, start, e)
    } else {
        mantissa_check(&c, start, e) && exponent_check(&c, e + 1)
    };
    proof {
        if e == c.len() {
            assert(c@.subrange(start as int, e as int) == t);
            if number_ok(t) && !mantissa_ok(t) {
                let p = choose|p: int|
                    0 <= p < t.len() && (t[p] == 'e' || t[p] == 'E') && #[trigger] mantissa_ok(t.take(p)) && exponent_ok(t.skip(p + 1));
                assert(c@[start + p] == t[p]);
            }
        } else {
            let p = e - start;
            assert(t.take(p) =~= c@.subrange(start as int, e as int));
            assert(t.skip(p + 1) =~= c@.subrange(e + 1, c.len() as int));
            assert(t[p] == c@[e as int]);
            if number_ok(t) && !(mantissa_ok(t.take(p)) && exponent_ok(t.skip(p + 1))) {
                if mantissa_ok(t) {
                    assert(t[p] != '.' && !is_digit(t[p]));
                } else {
                    let q = choose|q: int|
                        0 <= q < t.len() && (t[q] == 'e' || t[q] == 'E') && #[trigger] mantissa_ok(t.take(q)) && exponent_ok(t.skip(q + 1));
                    if q < p {
                        assert(c@[start + q] == t[q]);
                    } else if q > p {
                        assert(t.take(q)[p] == t[p]);
                    }
                }
            }
        }
    }
    r
}

} // verus!
