//! Decimal numerals as JSON writes them.
//!
//! A number on the wire is text: an optional minus sign, an integer part
//! without superfluous leading zeros, an optional fraction and an optional
//! exponent. This module states that grammar and decides it.

use vstd::prelude::*;
use vstd::string::*;

verus! {

/// `c` is one of the ten decimal digits.
pub open spec fn is_digit(c: char) -> bool {
    '0' <= c && c <= '9'
}

/// `c` introduces an exponent.
pub open spec fn is_exponent_mark(c: char) -> bool {
    c == 'e' || c == 'E'
}

/// `c` is the sign of an exponent.
pub open spec fn is_sign(c: char) -> bool {
    c == '+' || c == '-'
}

/// Every character of `s` at a position from `from` up to, not including,
/// `to` is a digit.
pub open spec fn digits_between(s: Seq<char>, from: int, to: int) -> bool {
    forall|k: int| from <= k < to ==> is_digit(#[trigger] s[k])
}

/// The positions from `from` up to `to` hold at least one character, all digits.
pub open spec fn digit_run(s: Seq<char>, from: int, to: int) -> bool {
    from < to && digits_between(s, from, to)
}

/// The first `i` characters of `s` are an integer part: digits, at least
/// one, and only one where the first is a zero.
pub open spec fn integer_part(s: Seq<char>, i: int) -> bool {
    digit_run(s, 0, i) && (s[0] == '0' ==> i == 1)
}

/// The characters of `s` from position `i` up to `f` are a fraction: a point
/// and digits, at least one.
pub open spec fn fraction_part(s: Seq<char>, i: int, f: int) -> bool {
    s[i] == '.' && digit_run(s, i + 1, f)
}

/// The characters of `s` from position `f` on are an exponent: a mark, a
/// sign or none, and digits, at least one.
pub open spec fn exponent_part(s: Seq<char>, f: int) -> bool {
    is_exponent_mark(s[f]) && (digit_run(s, f + 1, s.len() as int) || (is_sign(s[f + 1])
        && digit_run(s, f + 2, s.len() as int)))
}

/// `s` reads as an unsigned number whose integer part ends before position
/// `i` and whose fraction, if it has one, ends before position `f`; what
/// follows, if anything does, is its exponent.
pub open spec fn splits_as_magnitude(s: Seq<char>, i: int, f: int) -> bool {
    &&& i <= f <= s.len()
    &&& integer_part(s, i)
    &&& (f == i || fraction_part(s, i, f))
    &&& (f == s.len() || exponent_part(s, f))
}

/// `s` is an unsigned JSON number: `int [ frac ] [ exp ]`.
pub open spec fn is_magnitude(s: Seq<char>) -> bool {
    exists|i: int, f: int| splits_as_magnitude(s, i, f)
}

/// `s` is a JSON number: an unsigned one, or a minus sign before one.
pub open spec fn is_number(s: Seq<char>) -> bool {
    is_magnitude(s) || (s.len() > 0 && s[0] == '-' && is_magnitude(s.skip(1)))
}

/// The ASCII code of `0`.
pub(crate) const ZERO: u8 = 48;

/// The ASCII code of `9`.
pub(crate) const NINE: u8 = 57;

/// The ASCII code of `.`.
pub(crate) const POINT: u8 = 46;

/// The ASCII code of `+`.
pub(crate) const PLUS: u8 = 43;

/// The ASCII code of `-`.
pub(crate) const MINUS: u8 = 45;

/// The ASCII code of `e`.
pub(crate) const LOWER_E: u8 = 101;

/// The ASCII code of `E`.
pub(crate) const UPPER_E: u8 = 69;

/// `bytes` holds the code of each character of `s`, all of them ASCII.
spec fn spells(bytes: Seq<u8>, s: Seq<char>) -> bool {
    &&& bytes.len() == s.len()
    &&& forall|k: int| 0 <= k < s.len() ==> (#[trigger] bytes[k]) as int == s[k] as int
}

/// The end of the longest run of digits that starts at `from`.
fn digits_end(bytes: &[u8], from: usize, Ghost(s): Ghost<Seq<char>>) -> (end: usize)
    requires
        spells(bytes@, s),
        from <= bytes.len(),
    ensures
        from <= end <= bytes.len(),
        digits_between(s, from as int, end as int),
        end == bytes.len() || !is_digit(s[end as int]),
{
    let mut k: usize = from;
    while k < bytes.len() && ZERO <= bytes[k] && bytes[k] <= NINE
        invariant
            spells(bytes@, s),
            from <= k <= bytes.len(),
            digits_between(s, from as int, k as int),
        decreases bytes.len() - k,
    {
        k = k + 1;
    }
    k
}

/// `c` can stand in a JSON number: a digit, the point, an exponent mark or
/// a sign.
pub open spec fn is_number_char(c: char) -> bool {
    is_digit(c) || c == '.' || is_exponent_mark(c) || is_sign(c)
}

/// An unsigned number holds no character that cannot stand in a number.
pub proof fn lemma_magnitude_alphabet(s: Seq<char>)
    requires
        is_magnitude(s),
    ensures
        forall|k: int| 0 <= k < s.len() ==> is_number_char(#[trigger] s[k]),
{
    let (i, f) = choose|i: int, f: int| splits_as_magnitude(s, i, f);
    assert forall|k: int| 0 <= k < s.len() implies is_number_char(#[trigger] s[k]) by {
        if k < i {
        } else if k < f {
        } else {
        }
    }
}

/// A number holds no character that cannot stand in a number.
pub proof fn lemma_number_alphabet(s: Seq<char>)
    requires
        is_number(s),
    ensures
        forall|k: int| 0 <= k < s.len() ==> is_number_char(#[trigger] s[k]),
{
    if is_magnitude(s) {
        lemma_magnitude_alphabet(s);
    } else {
        lemma_magnitude_alphabet(s.skip(1));
        assert forall|k: int| 0 <= k < s.len() implies is_number_char(#[trigger] s[k]) by {
            if k > 0 {
                assert(s[k] == s.skip(1)[k - 1]);
            }
        }
    }
}

/// Decides whether `text` is an unsigned JSON number.
pub fn is_magnitude_text(text: &str) -> (ok: bool)
    ensures
        ok == is_magnitude(text@),
{
    if !text.is_ascii() {
        proof {
            if is_magnitude(text@) {
                lemma_magnitude_alphabet(text@);
            }
        }
        return false;
    }
    let bytes = text.as_bytes();
    let ghost s = text@;
    proof {
        is_ascii_spec_bytes(text);
        vstd::utf8::is_ascii_chars_nat_bound(s);
    }
    assert(spells(bytes@, s));
    let n: usize = bytes.len();
    let i: usize = digits_end(bytes, 0, Ghost(s));
    if i == 0 || (bytes[0] == ZERO && i != 1) {
        return false;
    }
    let mut f: usize = i;
    if i < n && bytes[i] == POINT {
        f = digits_end(bytes, i + 1, Ghost(s));
        if f == i + 1 {
            return false;
        }
    }
    if f == n {
        assert(splits_as_magnitude(s, i as int, f as int));
        return true;
    }
    if !(bytes[f] == LOWER_E || bytes[f] == UPPER_E) {
        return false;
    }
    let mut k: usize = f + 1;
    if k < n && (bytes[k] == PLUS || bytes[k] == MINUS) {
        k = k + 1;
    }
    let e: usize = digits_end(bytes, k, Ghost(s));
    if e == n && k < n {
        assert(splits_as_magnitude(s, i as int, f as int));
        true
    } else {
        false
    }
}

} // verus!
