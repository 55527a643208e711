//! The bit-level model of an IEEE 754 binary64 value.
//!
//! A volume is carried as the 64-bit pattern of the value. The predicates
//! here read the pattern directly, so "is NaN" is plain integer logic.

use vstd::prelude::*;

verus! {

/// Mask of the eleven exponent bits.
pub const EXP_MASK: u64 = 0x7FF0_0000_0000_0000;

/// Mask of the 52 fraction bits.
pub const FRAC_MASK: u64 = 0x000F_FFFF_FFFF_FFFF;

/// Bit pattern of positive zero.
pub const ZERO_BITS: u64 = 0;

/// Bit pattern of one.
pub const ONE_BITS: u64 = 0x3FF0_0000_0000_0000;

/// Bit pattern of the quiet NaN that stands for a missing value.
pub const QNAN_BITS: u64 = 0x7FF8_0000_0000_0000;

/// A pattern encodes NaN exactly when the exponent bits are all set and the
/// fraction is non-zero.
pub open spec fn is_nan_bits(b: u64) -> bool {
    b & EXP_MASK == EXP_MASK && b & FRAC_MASK != 0
}

/// Runtime test of `is_nan_bits`.
pub fn nan_bits(b: u64) -> (r: bool)
    ensures
        r == is_nan_bits(b),
{
    (b & EXP_MASK == EXP_MASK) && (b & FRAC_MASK != 0)
}

} // verus!
