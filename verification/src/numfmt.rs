//! Decimal rendering of the integers that appear in the output encodings.

use vstd::prelude::*;
use crate::chars::digit_char;
use crate::chars::digit_char_of;
use crate::chars::push_char;

verus! {

/// The decimal digit characters of `n`, most significant first.
pub open spec fn dec_digits(n: nat) -> Seq<char>
    decreases n,
{
    if n < 10 {
        seq![digit_char_of(n as int)]
    } else {
        dec_digits(n / 10).push(digit_char_of((n % 10) as int))
    }
}

/// The decimal rendering of an integer: a minus sign for negative values,
/// then the digits of the absolute value.
pub open spec fn dec_int(n: int) -> Seq<char> {
    if n < 0 {
        seq!['-'] + dec_digits((-n) as nat)
    } else {
        dec_digits(n as nat)
    }
}

/// Renders an unsigned value in decimal.
pub fn u64_to_dec(n: u64) -> (r: String)
    ensures
        r@ == dec_digits(n as nat),
    decreases n,
{
    if n < 10 {
        let mut s = String::new();
        push_char(&mut s, digit_char(n as u8));
        proof {
            assert(s@ =~= dec_digits(n as nat));
        }
        s
    } else {
        let mut s = u64_to_dec(n / 10);
        push_char(&mut s, digit_char((n % 10) as u8));
        s
    }
}

/// Renders a signed value in decimal.
pub fn i64_to_dec(n: i64) -> (r: String)
    ensures
        r@ == dec_int(n as int),
{
    if n >= 0 {
        u64_to_dec(n as u64)
    } else {
        let m: u64 = ((-(n + 1)) as u64) + 1;
        assert(m as nat == (-(n as int)) as nat);
        let mut s = String::new();
        push_char(&mut s, '-');
        let digits = u64_to_dec(m);
        s.append(digits.as_str());
        proof {
            assert(s@ =~= dec_int(n as int));
        }
        s
    }
}

/// Renders a value below one hundred as exactly two digits, zero-padded.
pub open spec fn two_digits(n: int) -> Seq<char> {
    seq![digit_char_of(n / 10), digit_char_of(n % 10)]
}

/// Renders a value below one hundred as exactly two digits, zero-padded.
pub fn u8_two_digits(n: u8) -> (r: String)
    requires
        n <= 99,
    ensures
        r@ == two_digits(n as int),
{
    let mut s = String::new();
    push_char(&mut s, digit_char(n / 10));
    push_char(&mut s, digit_char(n % 10));
    proof {
        assert(s@ =~= two_digits(n as int));
    }
    s
}

/// The `HH:MM:SS` rendering of a time of day.
pub open spec fn spec_timestring(h: int, mi: int, s: int) -> Seq<char> {
    two_digits(h) + seq![':'] + two_digits(mi) + seq![':'] + two_digits(s)
}

/// Renders a time of day as `HH:MM:SS`.
pub fn hms_string(h: u8, mi: u8, s: u8) -> (r: String)
    requires
        h <= 23,
        mi <= 59,
        s <= 59,
    ensures
        r@ == spec_timestring(h as int, mi as int, s as int),
{
    let mut out = u8_two_digits(h);
    push_char(&mut out, ':');
    let m2 = u8_two_digits(mi);
    out.append(m2.as_str());
    push_char(&mut out, ':');
    let s2 = u8_two_digits(s);
    out.append(s2.as_str());
    proof {
        assert(out@ =~= spec_timestring(h as int, mi as int, s as int));
    }
    out
}

} // verus!
