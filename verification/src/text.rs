//! Decimal rendering of counters and fixed-point values.
//!
//! Observation values and bucket boundaries are held as unsigned integers
//! in thousandths of a unit. This module renders such a value as the
//! shortest decimal numeral: the whole part, then a fractional part with
//! trailing zeros removed, omitted entirely when it is zero.

use vstd::prelude::*;
use vstd::string::*;

verus! {

/// Number of fixed-point units in one whole: values are in thousandths.
pub const SCALE: u64 = 1000;

/// The decimal digit character for `d` (meaningful for `0 <= d <= 9`).
pub open spec fn dec_digit(d: int) -> char {
    if d == 0 {
        '0'
    } else if d == 1 {
        '1'
    } else if d == 2 {
        '2'
    } else if d == 3 {
        '3'
    } else if d == 4 {
        '4'
    } else if d == 5 {
        '5'
    } else if d == 6 {
        '6'
    } else if d == 7 {
        '7'
    } else if d == 8 {
        '8'
    } else {
        '9'
    }
}

/// Decimal digits of `n`, most significant first, without leading zeros
/// (a single `'0'` for zero).
pub open spec fn dec_seq(n: int) -> Seq<char>
    decreases n,
{
    if n < 10 {
        seq![dec_digit(n)]
    } else {
        dec_seq(n / 10).push(dec_digit(n % 10))
    }
}

/// The shortest decimal numeral for the fixed-point value `v` (in
/// thousandths): whole part, then `'.'` and one to three fractional
/// digits with trailing zeros removed, omitted when the fraction is zero.
pub open spec fn fixed_seq(v: int) -> Seq<char> {
    let whole = v / (SCALE as int);
    let frac = v % (SCALE as int);
    let d1 = frac / 100;
    let d2 = (frac / 10) % 10;
    let d3 = frac % 10;
    if frac == 0 {
        dec_seq(whole)
    } else if d3 != 0 {
        dec_seq(whole) + seq!['.', dec_digit(d1), dec_digit(d2), dec_digit(d3)]
    } else if d2 != 0 {
        dec_seq(whole) + seq!['.', dec_digit(d1), dec_digit(d2)]
    } else {
        dec_seq(whole) + seq!['.', dec_digit(d1)]
    }
}

/// The one-character string slice for digit `d`.
fn digit_str(d: u64) -> (r: &'static str)
    requires
        d < 10,
    ensures
        r@ =~= seq![dec_digit(d as int)],
{
    proof {
        reveal_strlit("0");
        reveal_strlit("1");
        reveal_strlit("2");
        reveal_strlit("3");
        reveal_strlit("4");
        reveal_strlit("5");
        reveal_strlit("6");
        reveal_strlit("7");
        reveal_strlit("8");
        reveal_strlit("9");
    }
    if d == 0 {
        "0"
    } else if d == 1 {
        "1"
    } else if d == 2 {
        "2"
    } else if d == 3 {
        "3"
    } else if d == 4 {
        "4"
    } else if d == 5 {
        "5"
    } else if d == 6 {
        "6"
    } else if d == 7 {
        "7"
    } else if d == 8 {
        "8"
    } else {
        "9"
    }
}

/// Appends the decimal digits of `n` to `out`.
pub fn push_u64(out: &mut String, n: u64)
    ensures
        final(out)@ == old(out)@ + dec_seq(n as int),
    decreases n,
{
    if n >= 10 {
        push_u64(out, n / 10);
        out.append(digit_str(n % 10));
        assert(out@ =~= old(out)@ + dec_seq(n as int));
    } else {
        out.append(digit_str(n));
        assert(out@ =~= old(out)@ + dec_seq(n as int));
    }
}

/// Appends the shortest decimal numeral of the fixed-point value `v` to
/// `out`.
pub fn push_fixed(out: &mut String, v: u64)
    ensures
        final(out)@ == old(out)@ + fixed_seq(v as int),
{
    let whole = v / SCALE;
    let frac = v % SCALE;
    push_u64(out, whole);
    if frac != 0 {
        proof {
            reveal_strlit(".");
        }
        let d1 = frac / 100;
        let d2 = (frac / 10) % 10;
        let d3 = frac % 10;
        out.append(".");
        out.append(digit_str(d1));
        if d3 != 0 {
            out.append(digit_str(d2));
            out.append(digit_str(d3));
        } else if d2 != 0 {
            out.append(digit_str(d2));
        }
    }
    assert(out@ =~= old(out)@ + fixed_seq(v as int));
}

/// The decimal numeral of `n` as a fresh string.
pub fn u64_to_string(n: u64) -> (s: String)
    ensures
        s@ == dec_seq(n as int),
{
    let mut s = String::new();
    push_u64(&mut s, n);
    assert(s@ =~= dec_seq(n as int));
    s
}

/// The shortest decimal numeral of the fixed-point value `v` (in
/// thousandths) as a fresh string.
pub fn fixed_to_string(v: u64) -> (s: String)
    ensures
        s@ == fixed_seq(v as int),
{
    let mut s = String::new();
    push_fixed(&mut s, v);
    assert(s@ =~= fixed_seq(v as int));
    s
}

} // verus!
