//! Double-precision arithmetic on IEEE-754 bit patterns.
//!
//! The verified code holds a float only as the `u64` bits of its IEEE-754
//! encoding.  Every operation on those bits is performed by `rustc_apfloat`'s
//! software implementation of the IEEE-754 double format and is named here by
//! an uninterpreted function, so the contracts of the callers can speak of
//! the result exactly without restating the floating-point algorithms.

use rustc_apfloat::Float;
use vstd::prelude::*;

verus! {

/// The bits of the rounded sum of two doubles.
pub uninterp spec fn fp_add_bits(a: u64, b: u64) -> u64;

/// The bits of the rounded difference of two doubles.
pub uninterp spec fn fp_sub_bits(a: u64, b: u64) -> u64;

/// The bits of the rounded product of two doubles.
pub uninterp spec fn fp_mul_bits(a: u64, b: u64) -> u64;

/// The bits of the rounded quotient of two doubles.
pub uninterp spec fn fp_div_bits(a: u64, b: u64) -> u64;

/// The bits of the remainder (`fmod`) of two doubles.
pub uninterp spec fn fp_rem_bits(a: u64, b: u64) -> u64;

/// The bits of the double nearest to a 64-bit signed integer.
pub uninterp spec fn fp_from_int_bits(x: i64) -> u64;

/// Whether two doubles compare equal (so both zeroes are equal and a NaN
/// equals nothing).
pub uninterp spec fn fp_eq_bits(a: u64, b: u64) -> bool;

/// Whether the first double compares strictly below the second.
pub uninterp spec fn fp_lt_bits(a: u64, b: u64) -> bool;

/// Whether the first double compares below or equal to the second.
pub uninterp spec fn fp_le_bits(a: u64, b: u64) -> bool;

/// The bits of the double denoted by a decimal literal, if it parses.
pub uninterp spec fn fp_parse_bits(s: Seq<char>) -> Option<u64>;

/// The decimal rendering of a double.
pub uninterp spec fn fp_display_chars(b: u64) -> Seq<char>;

/// Whether the bits encode a NaN: an all-ones exponent with a nonzero
/// significand.
pub open spec fn is_nan_bits(b: u64) -> bool {
    (b & 0x7ff0_0000_0000_0000) == 0x7ff0_0000_0000_0000
        && (b & 0x000f_ffff_ffff_ffff) != 0
}

/// Relies on `rustc_apfloat`'s `Double` addition, rounding to nearest even:
/// the IEEE-754 sum of two non-NaN doubles does not depend on their order.
#[verifier::external_body]
pub(crate) fn fp_add(a: u64, b: u64) -> (r: u64)
    ensures
        r == fp_add_bits(a, b),
        !is_nan_bits(a) && !is_nan_bits(b) ==> r == fp_add_bits(b, a),
{
    let x = rustc_apfloat::ieee::Double::from_bits(a as u128);
    let y = rustc_apfloat::ieee::Double::from_bits(b as u128);
    (x + y).value.to_bits() as u64
}

/// Relies on `rustc_apfloat`'s `Double` subtraction, rounding to nearest even.
#[verifier::external_body]
pub(crate) fn fp_sub(a: u64, b: u64) -> (r: u64)
    ensures
        r == fp_sub_bits(a, b),
{
    let x = rustc_apfloat::ieee::Double::from_bits(a as u128);
    let y = rustc_apfloat::ieee::Double::from_bits(b as u128);
    (x - y).value.to_bits() as u64
}

/// Relies on `rustc_apfloat`'s `Double` multiplication, rounding to nearest
/// even: the IEEE-754 product of two non-NaN doubles does not depend on
/// their order.
#[verifier::external_body]
pub(crate) fn fp_mul(a: u64, b: u64) -> (r: u64)
    ensures
        r == fp_mul_bits(a, b),
        !is_nan_bits(a) && !is_nan_bits(b) ==> r == fp_mul_bits(b, a),
{
    let x = rustc_apfloat::ieee::Double::from_bits(a as u128);
    let y = rustc_apfloat::ieee::Double::from_bits(b as u128);
    (x * y).value.to_bits() as u64
}

/// Relies on `rustc_apfloat`'s `Double` division, rounding to nearest even.
#[verifier::external_body]
pub(crate) fn fp_div(a: u64, b: u64) -> (r: u64)
    ensures
        r == fp_div_bits(a, b),
{
    let x = rustc_apfloat::ieee::Double::from_bits(a as u128);
    let y = rustc_apfloat::ieee::Double::from_bits(b as u128);
    (x / y).value.to_bits() as u64
}

/// Relies on `rustc_apfloat`'s `Double` remainder (`c_fmod`), the semantics
/// of `%` on doubles.
#[verifier::external_body]
pub(crate) fn fp_rem(a: u64, b: u64) -> (r: u64)
    ensures
        r == fp_rem_bits(a, b),
{
    let x = rustc_apfloat::ieee::Double::from_bits(a as u128);
    let y = rustc_apfloat::ieee::Double::from_bits(b as u128);
    (x % y).value.to_bits() as u64
}

/// Relies on `rustc_apfloat`'s integer conversion: every `i64` rounds to a
/// finite double, never to a NaN.
#[verifier::external_body]
pub(crate) fn fp_from_int(x: i64) -> (r: u64)
    ensures
        r == fp_from_int_bits(x),
        !is_nan_bits(r),
{
    rustc_apfloat::ieee::Double::from_i128(x as i128).value.to_bits() as u64
}

/// Relies on `rustc_apfloat`'s `PartialEq` for `Double`, which follows the
/// IEEE-754 comparison predicate.
#[verifier::external_body]
pub(crate) fn fp_eq(a: u64, b: u64) -> (r: bool)
    ensures
        r == fp_eq_bits(a, b),
{
    let x = rustc_apfloat::ieee::Double::from_bits(a as u128);
    let y = rustc_apfloat::ieee::Double::from_bits(b as u128);
    x == y
}

/// Relies on `rustc_apfloat`'s `PartialOrd` for `Double`, which follows the
/// IEEE-754 comparison predicate.
#[verifier::external_body]
pub(crate) fn fp_lt(a: u64, b: u64) -> (r: bool)
    ensures
        r == fp_lt_bits(a, b),
{
    let x = rustc_apfloat::ieee::Double::from_bits(a as u128);
    let y = rustc_apfloat::ieee::Double::from_bits(b as u128);
    x < y
}

/// Relies on `rustc_apfloat`'s `PartialOrd` for `Double`, which follows the
/// IEEE-754 comparison predicate.
#[verifier::external_body]
pub(crate) fn fp_le(a: u64, b: u64) -> (r: bool)
    ensures
        r == fp_le_bits(a, b),
{
    let x = rustc_apfloat::ieee::Double::from_bits(a as u128);
    let y = rustc_apfloat::ieee::Double::from_bits(b as u128);
    x <= y
}

/// Relies on `rustc_apfloat`'s `from_str` for `Double`: correctly rounded
/// decimal-to-double conversion, a function of the text alone.
#[verifier::external_body]
pub(crate) fn fp_parse(s: &str) -> (r: Option<u64>)
    ensures
        r == fp_parse_bits(s@),
{
    match s.parse::<rustc_apfloat::ieee::Double>() {
        Ok(d) => Some(d.to_bits() as u64),
        Err(_) => None,
    }
}

/// Relies on `rustc_apfloat`'s `Display` for `Double`: a decimal rendering
/// that is a function of the bits alone.
#[verifier::external_body]
pub(crate) fn fp_display(b: u64) -> (r: String)
    ensures
        r@ == fp_display_chars(b),
{
    format!("{}", rustc_apfloat::ieee::Double::from_bits(b as u128))
}

} // verus!
