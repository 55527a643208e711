//! Trusted access to IEEE 754 binary64 arithmetic on bit patterns.
//!
//! Each operation is named by an uninterpreted spec function over the bit
//! patterns of its operands: the rounded result is a function of the operand
//! bits alone, fixed by the IEEE 754 standard (round to nearest, ties to
//! even), which is how Rust's native double arithmetic rounds as well. The
//! wrappers compute the named results in software with `const_soft_float`
//! and `rustc_apfloat`.

use vstd::prelude::*;
use const_soft_float::soft_f64::SoftF64;
use rustc_apfloat::Float as ApFloat;
use rustc_apfloat::ieee::Double;

verus! {

/// The bit pattern of the IEEE 754 binary64 sum of the values with patterns
/// `a` and `b`, rounded to nearest, ties to even.
pub uninterp spec fn add_bits(a: u64, b: u64) -> u64;

/// The bit pattern of the binary64 difference `a - b`, rounded to nearest,
/// ties to even.
pub uninterp spec fn sub_bits(a: u64, b: u64) -> u64;

/// The bit pattern of the binary64 product, rounded to nearest, ties to even.
pub uninterp spec fn mul_bits(a: u64, b: u64) -> u64;

/// The bit pattern of the binary64 quotient `a / b`, rounded to nearest,
/// ties to even.
pub uninterp spec fn div_bits(a: u64, b: u64) -> u64;

/// The bit pattern of the binary64 square root, rounded to nearest, ties to
/// even.
pub uninterp spec fn sqrt_bits(a: u64) -> u64;

/// The bit pattern of the binary64 value nearest to the unsigned integer `n`.
pub uninterp spec fn double_of_uint(n: u64) -> u64;

/// Relies on `const_soft_float::soft_f64::SoftF64::add`, a software port of
/// IEEE 754 binary64 addition, rounded to nearest, ties to even.
#[verifier::external_body]
pub(crate) fn add_bits_exec(a: u64, b: u64) -> (r: u64)
    ensures
        r == add_bits(a, b),
{
    SoftF64::from_bits(a).add(SoftF64::from_bits(b)).to_bits()
}

/// Relies on `const_soft_float::soft_f64::SoftF64::sub`, a software port of
/// IEEE 754 binary64 subtraction, rounded to nearest, ties to even.
#[verifier::external_body]
pub(crate) fn sub_bits_exec(a: u64, b: u64) -> (r: u64)
    ensures
        r == sub_bits(a, b),
{
    SoftF64::from_bits(a).sub(SoftF64::from_bits(b)).to_bits()
}

/// Relies on `const_soft_float::soft_f64::SoftF64::mul`, a software port of
/// IEEE 754 binary64 multiplication, rounded to nearest, ties to even.
#[verifier::external_body]
pub(crate) fn mul_bits_exec(a: u64, b: u64) -> (r: u64)
    ensures
        r == mul_bits(a, b),
{
    SoftF64::from_bits(a).mul(SoftF64::from_bits(b)).to_bits()
}

/// Relies on `const_soft_float::soft_f64::SoftF64::div`, a software port of
/// IEEE 754 binary64 division, rounded to nearest, ties to even.
#[verifier::external_body]
pub(crate) fn div_bits_exec(a: u64, b: u64) -> (r: u64)
    ensures
        r == div_bits(a, b),
{
    SoftF64::from_bits(a).div(SoftF64::from_bits(b)).to_bits()
}

/// Relies on `const_soft_float::soft_f64::SoftF64::sqrt`, a software port of
/// the correctly rounded IEEE 754 binary64 square root.
#[verifier::external_body]
pub(crate) fn sqrt_bits_exec(a: u64) -> (r: u64)
    ensures
        r == sqrt_bits(a),
{
    SoftF64::from_bits(a).sqrt().to_bits()
}

/// Relies on `rustc_apfloat::Float::from_u128` for `ieee::Double`: conversion
/// of an unsigned integer to the nearest binary64 value, ties to even.
#[verifier::external_body]
pub(crate) fn double_of_uint_exec(n: u64) -> (r: u64)
    ensures
        r == double_of_uint(n),
{
    let converted = Double::from_u128(n as u128).value;
    converted.to_bits() as u64
}

/// Left fold of binary64 addition over a sequence of bit patterns, starting
/// from `acc`: the sum a runtime accumulation loop produces, in order.
pub open spec fn fold_add(acc: u64, s: Seq<u64>) -> u64
    decreases s.len(),
{
    if s.len() == 0 {
        acc
    } else {
        add_bits(fold_add(acc, s.drop_last()), s.last())
    }
}

} // verus!
