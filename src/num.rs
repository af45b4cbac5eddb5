//! Numbers of the language: exact fixed-point decimals.
//!
//! A number is held as a count of millionths in an `i64` ("units"), so
//! `1.5` is held as `1_500_000`. Sums, differences and comparisons are
//! exact; products and quotients are truncated toward zero to six
//! fractional digits. A result whose magnitude does not fit in an `i64`
//! is an overflow, which the evaluator reports as a runtime error.

use vstd::prelude::*;
use crate::text::{digit, digit_char, digits_of, push_digits};

verus! {

/// Units in one whole number.
pub const SCALE: i64 = 1_000_000;

/// Digits kept after the decimal point.
pub const FRACTION_DIGITS: usize = 6;

/// The largest magnitude a number can have, in units.
pub const MAX_UNITS: i64 = 0x7fff_ffff_ffff_ffff;

pub open spec fn abs(x: int) -> nat {
    if x < 0 { (-x) as nat } else { x as nat }
}

/// A value in units that a number can hold.
pub open spec fn fits(x: int) -> bool {
    abs(x) <= MAX_UNITS
}

pub open spec fn sign_times(negative: bool, m: nat) -> int {
    if negative { -(m as int) } else { m as int }
}

/// The product of two numbers, truncated toward zero.
pub open spec fn mul_units(a: int, b: int) -> int {
    sign_times((a < 0) != (b < 0), (abs(a) * abs(b)) / (SCALE as nat))
}

/// The quotient of two numbers, truncated toward zero.
pub open spec fn div_units(a: int, b: int) -> int {
    sign_times((a < 0) != (b < 0), (abs(a) * (SCALE as nat)) / abs(b))
}

/// `10` to the power `k`.
pub open spec fn pow10(k: nat) -> nat
    decreases k,
{
    if k == 0 { 1 } else { 10 * pow10((k - 1) as nat) }
}

/// The value of a run of decimal digits.
pub open spec fn digits_value(ds: Seq<char>) -> nat
    decreases ds.len(),
{
    if ds.len() == 0 {
        0
    } else {
        let d = (ds.last() as int) - ('0' as int);
        (10 * digits_value(ds.drop_last()) + (if d < 0 { 0 } else { d as nat })) as nat
    }
}

/// The first `w` fractional digits of `f`, most significant first.
pub open spec fn fraction_digits(f: nat, w: nat) -> Seq<char>
    decreases w,
{
    if w == 0 {
        seq![]
    } else {
        fraction_digits(f / 10, (w - 1) as nat).push(digit_char((f % 10) as int))
    }
}

/// `(f, w)` with trailing zero digits removed.
pub open spec fn strip_zeros(f: nat, w: nat) -> (nat, nat)
    decreases w,
{
    if w > 0 && f % 10 == 0 {
        strip_zeros(f / 10, (w - 1) as nat)
    } else {
        (f, w)
    }
}

/// The canonical text of a number: an optional `-`, the whole part, and
/// when the fraction is not zero, `.` and its digits without trailing zeros.
pub open spec fn num_text(u: int) -> Seq<char> {
    let m = abs(u);
    let whole = m / (SCALE as nat);
    let frac = m % (SCALE as nat);
    let sign = if u < 0 { seq!['-'] } else { Seq::<char>::empty() };
    if frac == 0 {
        sign + digits_of(whole)
    } else {
        let (f, w) = strip_zeros(frac, FRACTION_DIGITS as nat);
        sign + digits_of(whole) + seq!['.'] + fraction_digits(f, w)
    }
}

pub fn add(a: i64, b: i64) -> (r: Option<i64>)
    ensures
        r matches Some(x) ==> x == a + b,
        r is None <==> !fits(a + b),
{
    let s: i128 = a as i128 + b as i128;
    if -(MAX_UNITS as i128) <= s && s <= MAX_UNITS as i128 {
        Some(s as i64)
    } else {
        None
    }
}

pub fn sub(a: i64, b: i64) -> (r: Option<i64>)
    ensures
        r matches Some(x) ==> x == a - b,
        r is None <==> !fits(a - b),
{
    let s: i128 = a as i128 - b as i128;
    if -(MAX_UNITS as i128) <= s && s <= MAX_UNITS as i128 {
        Some(s as i64)
    } else {
        None
    }
}

pub fn neg(a: i64) -> (r: Option<i64>)
    ensures
        r matches Some(x) ==> x == -a,
        r is None <==> !fits(-a),
{
    if a == i64::MIN {
        None
    } else {
        Some(-a)
    }
}

fn magnitude(a: i64) -> (r: u128)
    ensures
        r == abs(a as int),
{
    if a < 0 {
        (-(a as i128)) as u128
    } else {
        a as u128
    }
}

fn signed(negative: bool, m: u128) -> (r: Option<i64>)
    ensures
        r matches Some(x) ==> x == sign_times(negative, m as nat),
        r is None <==> !fits(sign_times(negative, m as nat)),
{
    if m > MAX_UNITS as u128 {
        None
    } else if negative {
        Some(-(m as i64))
    } else {
        Some(m as i64)
    }
}

pub fn mul(a: i64, b: i64) -> (r: Option<i64>)
    ensures
        r matches Some(x) ==> x == mul_units(a as int, b as int),
        r is None <==> !fits(mul_units(a as int, b as int)),
{
    let ma = magnitude(a);
    let mb = magnitude(b);
    proof {
        assert(ma * mb <= 0x8000_0000_0000_0000u128 * 0x8000_0000_0000_0000u128) by (nonlinear_arith)
            requires ma <= 0x8000_0000_0000_0000u128, mb <= 0x8000_0000_0000_0000u128;
    }
    let p: u128 = ma * mb / (SCALE as u128);
    signed((a < 0) != (b < 0), p)
}

/// Division; `b` must not be zero.
pub fn div(a: i64, b: i64) -> (r: Option<i64>)
    requires
        b != 0,
    ensures
        r matches Some(x) ==> x == div_units(a as int, b as int),
        r is None <==> !fits(div_units(a as int, b as int)),
{
    let ma = magnitude(a);
    let mb = magnitude(b);
    proof {
        assert(ma * 1_000_000u128 <= 0x8000_0000_0000_0000u128 * 1_000_000u128) by (nonlinear_arith)
            requires ma <= 0x8000_0000_0000_0000u128;
    }
    let p: u128 = ma * (SCALE as u128) / mb;
    signed((a < 0) != (b < 0), p)
}

/// Appends the first `w` fractional digits of `f`.
fn push_fraction(f: u64, w: u64, out: &mut Vec<char>)
    ensures
        final(out)@ == old(out)@ + fraction_digits(f as nat, w as nat),
    decreases w,
{
    if w > 0 {
        push_fraction(f / 10, w - 1, out);
        out.push(digit(f % 10));
        proof {
            assert(final(out)@ =~= old(out)@ + fraction_digits(f as nat, w as nat));
        }
    } else {
        proof {
            assert(final(out)@ =~= old(out)@ + fraction_digits(f as nat, w as nat));
        }
    }
}

/// The canonical text of the number held as `u` units.
pub fn num_to_chars(u: i64) -> (r: Vec<char>)
    ensures
        r@ == num_text(u as int),
{
    let m = magnitude(u);
    let whole: u64 = (m / (SCALE as u128)) as u64;
    let frac0: u64 = (m % (SCALE as u128)) as u64;
    let mut out: Vec<char> = Vec::new();
    if u < 0 {
        out.push('-');
    }
    let ghost sign = out@;
    assert(sign == (if u < 0 { seq!['-'] } else { Seq::<char>::empty() }));
    push_digits(whole, &mut out);
    if frac0 != 0 {
        let mut f: u64 = frac0;
        let mut w: u64 = FRACTION_DIGITS as u64;
        while w > 0 && f % 10 == 0
            invariant
                strip_zeros(f as nat, w as nat) == strip_zeros(frac0 as nat, FRACTION_DIGITS as nat),
            decreases w,
        {
            f = f / 10;
            w = w - 1;
        }
        out.push('.');
        push_fraction(f, w, &mut out);
        proof {
            assert(out@ =~= num_text(u as int));
        }
    } else {
        proof {
            assert(out@ =~= num_text(u as int));
        }
    }
    out
}

} // verus!
