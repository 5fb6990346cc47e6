//! Single-precision numbers held by their IEEE-754 bit pattern.
//!
//! A [`Scalar`] carries the 32 bits of a binary32 number. Its view is the
//! extended number those bits denote, and the comparisons below are proved
//! to order scalars as the numbers they denote are ordered.

use vstd::prelude::*;
use vstd::arithmetic::power2::*;

verus! {

/// Bit patterns below this bound have the sign bit clear.
pub const SIGN_BIT: u32 = 0x8000_0000;

/// The magnitude bits of both infinities; larger magnitudes are NaNs.
pub const INFINITY_BITS: u32 = 0x7F80_0000;

/// The weight of the implicit leading bit of a normal significand.
pub const HIDDEN_BIT: u32 = 0x0080_0000;

/// What a binary32 bit pattern denotes.
pub enum Number {
    /// Not a number.
    Nan,
    /// Negative infinity.
    NegInfinity,
    /// The number `n * 2^-149`; every finite binary32 number has this form.
    Finite(int),
    /// Positive infinity.
    Infinity,
}

/// The strict order of extended numbers; nothing compares with `Nan`.
pub open spec fn number_lt(a: Number, b: Number) -> bool {
    match (a, b) {
        (Number::Nan, _) => false,
        (_, Number::Nan) => false,
        (Number::NegInfinity, Number::NegInfinity) => false,
        (Number::NegInfinity, _) => true,
        (_, Number::NegInfinity) => false,
        (Number::Infinity, _) => false,
        (_, Number::Infinity) => true,
        (Number::Finite(x), Number::Finite(y)) => x < y,
    }
}

/// Numeric equality of extended numbers: `Nan` equals nothing, itself included.
pub open spec fn number_eq(a: Number, b: Number) -> bool {
    a != Number::Nan && a == b
}

/// `a <= b` as numbers.
pub open spec fn number_le(a: Number, b: Number) -> bool {
    number_lt(a, b) || number_eq(a, b)
}

/// The number denoted by magnitude bits `m` (sign bit clear, not a NaN,
/// not infinite), in units of `2^-149`.
pub open spec fn magnitude_units(m: nat) -> nat {
    let e = m / (HIDDEN_BIT as nat);
    let f = m % (HIDDEN_BIT as nat);
    if e == 0 {
        f
    } else {
        (HIDDEN_BIT as nat + f) * pow2((e - 1) as nat)
    }
}

/// A binary32 number, held by its bit pattern.
#[derive(Clone, Copy, Debug)]
pub struct Scalar {
    pub bits: u32,
}

/// The number that a bit pattern denotes: sign bit, eight bits of biased
/// exponent, twenty-three bits of fraction.
#[verifier::opaque]
pub open spec fn denote(bits: u32) -> Number {
    let m = (bits % SIGN_BIT) as nat;
    if m > INFINITY_BITS {
        Number::Nan
    } else if m == INFINITY_BITS {
        if bits >= SIGN_BIT {
            Number::NegInfinity
        } else {
            Number::Infinity
        }
    } else if bits >= SIGN_BIT {
        Number::Finite(-(magnitude_units(m) as int))
    } else {
        Number::Finite(magnitude_units(m) as int)
    }
}

impl View for Scalar {
    type V = Number;

    open spec fn view(&self) -> Number {
        denote(self.bits)
    }
}

impl Scalar {
    /// The bits below the sign bit.
    pub open spec fn magnitude(self) -> nat {
        (self.bits % SIGN_BIT) as nat
    }

    /// Whether the sign bit is set.
    pub open spec fn sign_negative(self) -> bool {
        self.bits >= SIGN_BIT
    }

    /// Whether the scalar is a NaN.
    pub open spec fn is_nan_spec(self) -> bool {
        self@ == Number::Nan
    }

    /// The signed magnitude: an integer that orders the patterns that are
    /// not NaNs as the numbers they denote are ordered.
    pub open spec fn key(self) -> int {
        if self.sign_negative() {
            -(self.magnitude() as int)
        } else {
            self.magnitude() as int
        }
    }

    /// The scalar with the given bit pattern.
    pub fn from_bits(bits: u32) -> (s: Scalar)
        ensures
            s.bits == bits,
    {
        Scalar { bits }
    }

    /// The bit pattern of the scalar.
    pub fn to_bits(self) -> (bits: u32)
        ensures
            bits == self.bits,
    {
        self.bits
    }

    /// Positive zero.
    pub fn zero() -> (s: Scalar)
        ensures
            s.bits == 0,
            s@ == Number::Finite(0),
    {
        proof {
            reveal(denote);
        }
        Scalar { bits: 0 }
    }

    /// The number one.
    pub fn one() -> (s: Scalar)
        ensures
            s.bits == 0x3F80_0000,
            s@ == Number::Finite(one_units() as int),
    {
        proof {
            lemma_one_units();
        }
        Scalar { bits: 0x3F80_0000 }
    }

    /// Whether the scalar is a NaN.
    #[verifier::when_used_as_spec(is_nan_spec)]
    pub fn is_nan(self) -> (r: bool)
        ensures
            r == self.is_nan_spec(),
    {
        proof {
            reveal(denote);
        }
        self.bits % SIGN_BIT > INFINITY_BITS
    }
}

/// The number one in units of `2^-149`.
pub open spec fn one_units() -> nat {
    0x80_0000 * pow2(126)
}

/// The bit pattern `0x3F80_0000` denotes one.
pub proof fn lemma_one_units()
    ensures
        (Scalar { bits: 0x3F80_0000 })@ == Number::Finite(one_units() as int),
{
    reveal(denote);
    let s = Scalar { bits: 0x3F80_0000 };
    assert(s.magnitude() == 0x3F80_0000);
    assert(0x3F80_0000nat / 0x80_0000 == 127);
    assert(0x3F80_0000nat % 0x80_0000 == 0);
}

/// Larger magnitude bits denote larger numbers: on magnitudes that are
/// neither NaN nor infinite, `magnitude_units` is strictly increasing.
pub proof fn lemma_magnitude_units_increasing(m1: nat, m2: nat)
    requires
        m1 < m2,
        m2 < INFINITY_BITS,
    ensures
        magnitude_units(m1) < magnitude_units(m2),
{
    let h = HIDDEN_BIT as nat;
    let e1 = m1 / h;
    let f1 = m1 % h;
    let e2 = m2 / h;
    let f2 = m2 % h;
    assert(m1 == e1 * h + f1 && m2 == e2 * h + f2) by (nonlinear_arith)
        requires
            h == 0x80_0000,
            e1 == m1 / h,
            f1 == m1 % h,
            e2 == m2 / h,
            f2 == m2 % h,
    ;
    assert(e1 <= e2) by (nonlinear_arith)
        requires
            m1 < m2,
            h == 0x80_0000,
            e1 == m1 / h,
            e2 == m2 / h,
    ;
    if e1 == e2 {
        assert(f1 < f2);
        if e1 != 0 {
            let p = pow2((e1 - 1) as nat);
            lemma_pow2_pos((e1 - 1) as nat);
            assert((h + f1) * p < (h + f2) * p) by (nonlinear_arith)
                requires
                    f1 < f2,
                    p > 0,
            ;
        }
    } else {
        let high = pow2((e2 - 1) as nat);
        lemma_pow2_pos((e2 - 1) as nat);
        assert(h * high <= (h + f2) * high) by (nonlinear_arith)
            requires
                high > 0,
                f2 >= 0,
        ;
        if e1 == 0 {
            assert(h * 1 <= h * high) by (nonlinear_arith)
                requires
                    high >= 1,
                    h >= 0,
            ;
        } else {
            let low = pow2((e1 - 1) as nat);
            lemma_pow2_pos((e1 - 1) as nat);
            lemma_pow2_unfold(e1);
            assert(pow2(e1) <= high) by {
                if e1 < e2 - 1 {
                    lemma_pow2_strictly_increases(e1, (e2 - 1) as nat);
                }
            }
            assert((h + f1) * low < h * high) by (nonlinear_arith)
                requires
                    f1 < h,
                    low > 0,
                    2 * low <= high,
                    h > 0,
            ;
        }
    }
}

/// On scalars that are not NaNs, the order of the signed magnitudes is the
/// order of the numbers denoted.
pub proof fn lemma_key_orders(a: Scalar, b: Scalar)
    requires
        !a.is_nan_spec(),
        !b.is_nan_spec(),
    ensures
        a.key() < b.key() <==> number_lt(a@, b@),
        a.key() == b.key() <==> number_eq(a@, b@),
{
    reveal(denote);
    let ma = a.magnitude();
    let mb = b.magnitude();
    if ma < INFINITY_BITS && mb < INFINITY_BITS {
        if ma < mb {
            lemma_magnitude_units_increasing(ma, mb);
        } else if mb < ma {
            lemma_magnitude_units_increasing(mb, ma);
        }
        assert(magnitude_units(0) == 0);
        if ma > 0 {
            lemma_magnitude_units_increasing(0, ma);
        }
        if mb > 0 {
            lemma_magnitude_units_increasing(0, mb);
        }
    } else {
        if ma < INFINITY_BITS && ma > 0 {
            lemma_magnitude_units_increasing(0, ma);
        }
        if mb < INFINITY_BITS && mb > 0 {
            lemma_magnitude_units_increasing(0, mb);
        }
    }
}

impl Scalar {
    /// The signed magnitude, computed.
    fn signed_magnitude(self) -> (k: i64)
        ensures
            k == self.key(),
    {
        let m: u32 = self.bits % SIGN_BIT;
        if self.bits >= SIGN_BIT {
            -(m as i64)
        } else {
            m as i64
        }
    }

    /// `self < other` as numbers.
    pub open spec fn lt_spec(self, other: Scalar) -> bool {
        number_lt(self@, other@)
    }

    /// `self > other` as numbers.
    pub open spec fn gt_spec(self, other: Scalar) -> bool {
        number_lt(other@, self@)
    }

    /// `self <= other` as numbers.
    pub open spec fn le_spec(self, other: Scalar) -> bool {
        number_le(self@, other@)
    }

    /// `self >= other` as numbers.
    pub open spec fn ge_spec(self, other: Scalar) -> bool {
        number_le(other@, self@)
    }

    /// `self < other`, as the comparison of binary32 numbers decides it:
    /// false whenever either side is a NaN, and `-0` is not below `+0`.
    #[verifier::when_used_as_spec(lt_spec)]
    pub fn lt(self, other: Scalar) -> (r: bool)
        ensures
            r == number_lt(self@, other@),
    {
        if self.is_nan() || other.is_nan() {
            return false;
        }
        proof {
            lemma_key_orders(self, other);
        }
        self.signed_magnitude() < other.signed_magnitude()
    }

    /// `self > other`: false whenever either side is a NaN.
    #[verifier::when_used_as_spec(gt_spec)]
    pub fn gt(self, other: Scalar) -> (r: bool)
        ensures
            r == number_lt(other@, self@),
    {
        other.lt(self)
    }

    /// `self <= other`: false whenever either side is a NaN.
    #[verifier::when_used_as_spec(le_spec)]
    pub fn le(self, other: Scalar) -> (r: bool)
        ensures
            r == number_le(self@, other@),
    {
        if self.is_nan() || other.is_nan() {
            return false;
        }
        proof {
            lemma_key_orders(self, other);
        }
        self.signed_magnitude() <= other.signed_magnitude()
    }

    /// `self >= other`: false whenever either side is a NaN.
    #[verifier::when_used_as_spec(ge_spec)]
    pub fn ge(self, other: Scalar) -> (r: bool)
        ensures
            r == number_le(other@, self@),
    {
        other.le(self)
    }

    /// The scalar with the sign bit flipped, which is how a binary32 number
    /// is negated: a NaN stays a NaN and zero changes its sign only.
    pub fn neg(self) -> (r: Scalar)
        ensures
            r.bits == flip_sign(self.bits),
            r@ == number_neg(self@),
    {
        proof {
            reveal(denote);
        }
        if self.bits >= SIGN_BIT {
            Scalar { bits: self.bits - SIGN_BIT }
        } else {
            Scalar { bits: self.bits + SIGN_BIT }
        }
    }

    /// The scalar with the sign bit cleared: the absolute value.
    pub fn abs(self) -> (r: Scalar)
        ensures
            r.bits == self.bits % SIGN_BIT,
            r@ == number_abs(self@),
    {
        proof {
            reveal(denote);
        }
        Scalar { bits: self.bits % SIGN_BIT }
    }
}

/// A bit pattern with its sign bit flipped.
pub open spec fn flip_sign(bits: u32) -> u32 {
    if bits >= SIGN_BIT {
        (bits - SIGN_BIT) as u32
    } else {
        (bits + SIGN_BIT) as u32
    }
}

/// The negation of an extended number.
pub open spec fn number_neg(a: Number) -> Number {
    match a {
        Number::Nan => Number::Nan,
        Number::NegInfinity => Number::Infinity,
        Number::Finite(x) => Number::Finite(-x),
        Number::Infinity => Number::NegInfinity,
    }
}

/// The absolute value of an extended number.
pub open spec fn number_abs(a: Number) -> Number {
    match a {
        Number::Nan => Number::Nan,
        Number::NegInfinity => Number::Infinity,
        Number::Finite(x) => Number::Finite(if x < 0 { -x } else { x }),
        Number::Infinity => Number::Infinity,
    }
}

/// Flipping the sign bit negates the number denoted.
pub proof fn lemma_flip_sign_negates(a: Scalar)
    ensures
        (Scalar { bits: flip_sign(a.bits) })@ == number_neg(a@),
{
    reveal(denote);
}

} // verus!
