//! Single-precision values as bit patterns, and the two arithmetic
//! operations that composing transforms needs.

use rustc_apfloat::ieee::Single;
use rustc_apfloat::{Float, Round};
use vstd::prelude::*;

verus! {

/// Bit pattern of `0.0`.
pub const ZERO: u32 = 0;

/// Bit pattern of `1.0`.
pub const ONE: u32 = 0x3f80_0000;

/// The bit pattern of the IEEE 754 single-precision product of the values
/// with bit patterns `a` and `b`, rounded to nearest, ties to even.
pub uninterp spec fn single_product(a: u32, b: u32) -> u32;

/// The bit pattern of the IEEE 754 single-precision sum of the values with
/// bit patterns `a` and `b`, rounded to nearest, ties to even.
pub uninterp spec fn single_sum(a: u32, b: u32) -> u32;

/// Multiplies two single-precision values with `rustc_apfloat`'s
/// `Float::mul_r` on `ieee::Single`. Trusted: the result is the product that
/// `single_product` names. The arithmetic is done in software on the bit
/// patterns, so the same operands give the same bits on every machine.
#[verifier::external_body]
pub(crate) fn multiply_singles(a: u32, b: u32) -> (r: u32)
    ensures
        r == single_product(a, b),
{
    let x = Single::from_bits(u128::from(a));
    let y = Single::from_bits(u128::from(b));
    x.mul_r(y, Round::NearestTiesToEven).value.to_bits() as u32
}

/// Adds two single-precision values with `rustc_apfloat`'s `Float::add_r` on
/// `ieee::Single`. Trusted: the result is the sum that `single_sum` names.
#[verifier::external_body]
pub(crate) fn add_singles(a: u32, b: u32) -> (r: u32)
    ensures
        r == single_sum(a, b),
{
    let x = Single::from_bits(u128::from(a));
    let y = Single::from_bits(u128::from(b));
    x.add_r(y, Round::NearestTiesToEven).value.to_bits() as u32
}

} // verus!
