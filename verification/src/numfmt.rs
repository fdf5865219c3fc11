//! Decimal rendering of the integers that the export writes: truncation
//! of sub-pixel coordinates to whole pixels (toward zero) and exact
//! decimal notation for signed values.

use vstd::prelude::*;
use crate::geom::COORD_LIMIT;
use crate::geom::SUBPIXELS;

verus! {

/// Truncation of a sub-pixel coordinate to whole pixels, toward zero.
pub open spec fn spec_pixels(v: int) -> int {
    if v >= 0 {
        v / (SUBPIXELS as int)
    } else {
        -((-v) / (SUBPIXELS as int))
    }
}

/// Converts a sub-pixel coordinate to whole pixels, truncating toward
/// zero.
pub fn to_pixels(v: i64) -> (q: i64)
    requires
        -COORD_LIMIT <= v <= COORD_LIMIT,
    ensures
        q == spec_pixels(v as int),
{
    if v >= 0 {
        let m: u64 = (v as u64) / (SUBPIXELS as u64);
        m as i64
    } else {
        let m: u64 = ((-v) as u64) / (SUBPIXELS as u64);
        -(m as i64)
    }
}

/// The character of a single decimal digit.
pub open spec fn spec_digit_char(d: int) -> char {
    if d == 0 {
        '0'
    } else if d == 1 {
        '1'
    } else if d == 2 {
        '2'
    } else if d == 3 {
        '3'
    } else if d == 4 {
        '4'
    } else if d == 5 {
        '5'
    } else if d == 6 {
        '6'
    } else if d == 7 {
        '7'
    } else if d == 8 {
        '8'
    } else {
        '9'
    }
}

/// Decimal notation of a natural number, most significant digit first,
/// without leading zeros (except for zero itself).
pub open spec fn spec_udec(n: nat) -> Seq<char>
    decreases n,
{
    if n < 10 {
        seq![spec_digit_char(n as int)]
    } else {
        spec_udec(n / 10) + seq![spec_digit_char((n % 10) as int)]
    }
}

/// Decimal notation of a signed integer: a leading minus sign for
/// negative values, then the magnitude's digits.
pub open spec fn spec_idec(v: int) -> Seq<char> {
    if v >= 0 {
        spec_udec(v as nat)
    } else {
        seq!['-'] + spec_udec((-v) as nat)
    }
}

/// The one-character string of a decimal digit.
fn digit_str(d: u64) -> (s: &'static str)
    requires
        d < 10,
    ensures
        s@ == seq![spec_digit_char(d as int)],
{
    proof {
        reveal_strlit("0");
        reveal_strlit("1");
        reveal_strlit("2");
        reveal_strlit("3");
        reveal_strlit("4");
        reveal_strlit("5");
        reveal_strlit("6");
        reveal_strlit("7");
        reveal_strlit("8");
        reveal_strlit("9");
    }
    match d {
        0 => "0",
        1 => "1",
        2 => "2",
        3 => "3",
        4 => "4",
        5 => "5",
        6 => "6",
        7 => "7",
        8 => "8",
        _ => "9",
    }
}

/// Appends the decimal digits of `n` to `out`.
fn push_udec(n: u64, out: &mut String)
    ensures
        final(out)@ == old(out)@ + spec_udec(n as nat),
    decreases n,
{
    if n >= 10 {
        push_udec(n / 10, out);
        out.append(digit_str(n % 10));
        assert(out@ =~= old(out)@ + spec_udec(n as nat));
    } else {
        out.append(digit_str(n));
        assert(out@ =~= old(out)@ + spec_udec(n as nat));
    }
}

/// Renders a signed integer in decimal notation.
pub fn i64_to_string(v: i64) -> (r: String)
    requires
        v > i64::MIN,
    ensures
        r@ == spec_idec(v as int),
{
    let mut out = String::new();
    if v < 0 {
        proof {
            reveal_strlit("-");
        }
        out.append("-");
        push_udec((-v) as u64, &mut out);
        assert(out@ =~= spec_idec(v as int));
    } else {
        push_udec(v as u64, &mut out);
        assert(out@ =~= spec_idec(v as int));
    }
    out
}

} // verus!
