//! Three-component vectors of [`Scalar`]s: points, directions and colours.

use vstd::prelude::*;
use vstd::arithmetic::power2::pow2;
use crate::scalar::{denote, flip_sign, number_abs, number_lt, number_neg, Number, Scalar};

verus! {

/// The bit pattern of the absolute tolerance below which a component counts
/// as zero: the square root of the binary32 machine epsilon.
pub const ZERO_TOLERANCE_BITS: u32 = 0x39B5_04F3;

/// The tolerance is `0xB5_04F3 * 2^-35`, about 0.000345.
pub proof fn lemma_zero_tolerance()
    ensures
        (Scalar { bits: ZERO_TOLERANCE_BITS })@ == Number::Finite((0xB5_04F3 * pow2(114)) as int),
{
    reveal(denote);
    assert(0x39B5_04F3nat / 0x80_0000 == 115);
    assert(0x39B5_04F3nat % 0x80_0000 == 0x35_04F3);
}

/// Whether a scalar is zero up to the tolerance: its absolute value is below
/// the tolerance, which no NaN is.
pub open spec fn almost_zero_spec(a: Scalar) -> bool {
    number_lt(number_abs(a@), (Scalar { bits: ZERO_TOLERANCE_BITS })@)
}

/// Whether a scalar is zero up to the tolerance.
#[verifier::when_used_as_spec(almost_zero_spec)]
pub fn almost_zero(a: Scalar) -> (r: bool)
    ensures
        r == almost_zero_spec(a),
{
    a.abs().lt(Scalar::from_bits(ZERO_TOLERANCE_BITS))
}

/// A vector of three scalars.
#[derive(Clone, Copy, Debug)]
pub struct Vec3 {
    pub x: Scalar,
    pub y: Scalar,
    pub z: Scalar,
}

impl Vec3 {
    /// The vector with the given components.
    pub fn new(x: Scalar, y: Scalar, z: Scalar) -> (v: Vec3)
        ensures
            v == (Vec3 { x, y, z }),
    {
        Vec3 { x, y, z }
    }

    /// The vector whose components are all one: full transmission.
    pub fn ones() -> (v: Vec3)
        ensures
            v == Self::ones_spec(),
    {
        Vec3 { x: Scalar::one(), y: Scalar::one(), z: Scalar::one() }
    }

    /// The vector whose components are all one.
    pub open spec fn ones_spec() -> Vec3 {
        let one = Scalar { bits: 0x3F80_0000 };
        Vec3 { x: one, y: one, z: one }
    }

    /// The vector with every component negated.
    pub open spec fn neg_spec(self) -> Vec3 {
        Vec3 {
            x: Scalar { bits: flip_sign(self.x.bits) },
            y: Scalar { bits: flip_sign(self.y.bits) },
            z: Scalar { bits: flip_sign(self.z.bits) },
        }
    }

    /// The vector with every component negated.
    #[verifier::when_used_as_spec(neg_spec)]
    pub fn neg(self) -> (v: Vec3)
        ensures
            v == self.neg_spec(),
            v.x@ == number_neg(self.x@),
            v.y@ == number_neg(self.y@),
            v.z@ == number_neg(self.z@),
    {
        Vec3 { x: self.x.neg(), y: self.y.neg(), z: self.z.neg() }
    }

    /// Whether every component is zero up to the tolerance.
    pub open spec fn near_zero_spec(self) -> bool {
        almost_zero_spec(self.x) && almost_zero_spec(self.y) && almost_zero_spec(self.z)
    }

    /// Whether every component is zero up to the tolerance.
    #[verifier::when_used_as_spec(near_zero_spec)]
    pub fn near_zero(self) -> (r: bool)
        ensures
            r == self.near_zero_spec(),
    {
        almost_zero(self.x) && almost_zero(self.y) && almost_zero(self.z)
    }
}

} // verus!
