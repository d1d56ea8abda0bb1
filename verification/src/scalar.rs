//! The scalar IEEE-754 binary64 operations that the kernels are built from.
//!
//! Floating-point values never appear here as such: a cell is carried as its
//! 64-bit pattern, and the one arithmetic step the kernels need — a multiply
//! followed by an addition, each rounded to nearest-even — is performed by
//! `rustc_apfloat`, a pure software implementation of IEEE-754 binary64.
//! Its result is a function of the argument bit patterns alone, named below
//! by `fma_bits`, and every contract of the kernels is stated over that name.

use rustc_apfloat::ieee::Double;
use rustc_apfloat::Float;
use vstd::prelude::*;

verus! {

/// Bit pattern of the binary64 value 10.0, the exclusive upper bound of the
/// cells that `Matrix::random` draws. Nonnegative binary64 values order the
/// same way as their bit patterns, so `bits < TEN_BITS` says that the value
/// lies below 10.0.
pub const TEN_BITS: u64 = 0x4024_0000_0000_0000;

/// 2^52: the number of evenly spaced points of `[0, 1)` that a random unit
/// value is drawn from (the spacing of binary64 values in `[1, 2)`).
pub const UNIT_DENOM: u64 = 0x10_0000_0000_0000;

/// The bit pattern of `acc + x * y` on binary64 values: the product of the
/// values with bit patterns `x` and `y`, rounded to nearest-even, added to
/// the value with bit pattern `acc`, rounded again. A function of the three
/// bit patterns alone.
pub uninterp spec fn fma_bits(acc: u64, x: u64, y: u64) -> u64;

/// The bit pattern of the binary64 value `k / 2^52`, for `k < 2^52`: the
/// conversion is exact, so this too is a function of `k` alone.
pub uninterp spec fn unit_bits(k: u64) -> u64;

/// Relies on rustc_apfloat's binary64 `Mul` and `Add`, which round to
/// nearest-even as IEEE-754 prescribes: the result is `fma_bits(acc, x, y)`,
/// determined by the argument bit patterns alone.
#[verifier::external_body]
pub(crate) fn fma_step(acc: u64, x: u64, y: u64) -> (r: u64)
    ensures
        r == fma_bits(acc, x, y),
{
    let p = (Double::from_bits(x as u128) * Double::from_bits(y as u128)).value;
    (Double::from_bits(acc as u128) + p).value.to_bits() as u64
}

/// Relies on rustc_apfloat's `from_u128` (exact for arguments below 2^53)
/// and `scalbn` (an exact scaling by a power of two): the result is the bit
/// pattern of `k / 2^52`, determined by `k` alone.
#[verifier::external_body]
pub(crate) fn unit_from_fraction(k: u64) -> (r: u64)
    requires
        k < UNIT_DENOM,
    ensures
        r == unit_bits(k),
{
    Double::from_u128(k as u128).value.scalbn(-52).to_bits() as u64
}

} // verus!
