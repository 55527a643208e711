//! Summary statistics of tumour-volume changes across treatment phases.
//!
//! Volumes are IEEE 754 binary64 values, carried as their 64-bit patterns so
//! that all of the selection logic (missing-value and NaN gating, pairing,
//! counting, ordering) is verified, while the rounding arithmetic itself is
//! performed by a software floating-point implementation behind trusted
//! wrappers.

pub mod bits;
pub mod arith;
pub mod roi;
pub mod stats;
pub mod stat;
pub mod data;
pub mod record;
pub mod aggregate;
