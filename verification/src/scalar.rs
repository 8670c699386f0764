use vstd::prelude::*;

verus! {

/// Bit pattern of the first negative value: the sign bit alone.
pub const SIGN_BIT: u32 = 0x8000_0000;

/// Bit pattern of positive infinity; every larger magnitude is a NaN.
pub const INFINITY_BITS: u32 = 0x7F80_0000;

/// A binary32 number, held by its bit pattern.
///
/// Two scalars are `==` when their bits agree. Numeric comparison, which
/// equates the two zeros and orders no NaN, is `lt`, `gt` and `is_zero`.
#[derive(Clone, Copy, Debug, PartialEq, Eq, Structural)]
pub struct Scalar {
    pub bits: u32,
}

/// Bits of zero with a clear sign.
pub const ZERO_BITS: u32 = 0;

/// Bits of one.
pub const ONE_BITS: u32 = 0x3F80_0000;

/// A half.
pub const HALF_BITS: u32 = 0x3F00_0000;

/// Minus a half.
pub const MINUS_HALF_BITS: u32 = 0xBF00_0000;

/// Minus one.
pub const MINUS_ONE_BITS: u32 = 0xBF80_0000;

/// Four.
pub const FOUR_BITS: u32 = 0x4080_0000;

/// Six.
pub const SIX_BITS: u32 = 0x40C0_0000;

/// Bits of the largest finite value.
pub const MAX_BITS: u32 = 0x7F7F_FFFF;

impl Scalar {
    /// The sign bit is set.
    pub open spec fn sign(self) -> bool {
        self.bits >= SIGN_BIT
    }

    /// The bits without the sign: exponent and fraction as one number.
    pub open spec fn magnitude(self) -> int {
        if self.bits >= SIGN_BIT {
            self.bits - SIGN_BIT
        } else {
            self.bits as int
        }
    }

    /// Not a number: the exponent is all ones and the fraction is not zero.
    pub open spec fn spec_is_nan(self) -> bool {
        self.magnitude() > INFINITY_BITS
    }

    /// Either zero, whatever the sign.
    pub open spec fn spec_is_zero(self) -> bool {
        self.magnitude() == 0
    }

    /// An integer that orders the numbers as their values do: for two
    /// scalars that are not NaN, the smaller value has the smaller rank, and
    /// equal values (the two zeros among them) have the same rank.
    pub open spec fn rank(self) -> int {
        if self.sign() {
            -self.magnitude()
        } else {
            self.magnitude()
        }
    }

    /// Numerically less: false as soon as either side is a NaN.
    pub open spec fn spec_lt(self, other: Scalar) -> bool {
        !self.spec_is_nan() && !other.spec_is_nan() && self.rank() < other.rank()
    }

    /// Numerically greater: `other.spec_lt(self)`.
    pub open spec fn spec_gt(self, other: Scalar) -> bool {
        other.spec_lt(self)
    }

    /// The same magnitude with the opposite sign, NaN included.
    pub open spec fn spec_neg(self) -> Scalar {
        if self.bits >= SIGN_BIT {
            Scalar { bits: (self.bits - SIGN_BIT) as u32 }
        } else {
            Scalar { bits: (self.bits + SIGN_BIT) as u32 }
        }
    }

    /// Zero with a clear sign bit.
    pub open spec fn zero() -> Scalar {
        Scalar { bits: ZERO_BITS }
    }

    /// One.
    pub open spec fn one() -> Scalar {
        Scalar { bits: ONE_BITS }
    }

    /// Whether the value is zero, of either sign.
    #[verifier::when_used_as_spec(spec_is_zero)]
    pub fn is_zero(self) -> (r: bool)
        ensures
            r == self.spec_is_zero(),
    {
        self.bits == 0 || self.bits == SIGN_BIT
    }

    /// The rank as a machine integer.
    fn exec_rank(self) -> (r: i64)
        ensures
            r == self.rank(),
    {
        if self.bits >= SIGN_BIT {
            -((self.bits - SIGN_BIT) as i64)
        } else {
            self.bits as i64
        }
    }

    /// Whether the scalar is not a number.
    #[verifier::when_used_as_spec(spec_is_nan)]
    pub fn is_nan(self) -> (r: bool)
        ensures
            r == self.spec_is_nan(),
    {
        if self.bits >= SIGN_BIT {
            self.bits - SIGN_BIT > INFINITY_BITS
        } else {
            self.bits > INFINITY_BITS
        }
    }

    /// Whether `self` is numerically less than `other`.
    #[verifier::when_used_as_spec(spec_lt)]
    pub fn lt(self, other: Scalar) -> (r: bool)
        ensures
            r == self.spec_lt(other),
    {
        !self.is_nan() && !other.is_nan() && self.exec_rank() < other.exec_rank()
    }

    /// Whether `self` is numerically greater than `other`.
    #[verifier::when_used_as_spec(spec_gt)]
    pub fn gt(self, other: Scalar) -> (r: bool)
        ensures
            r == self.spec_gt(other),
    {
        other.lt(self)
    }

    /// `self` with the opposite sign.
    #[verifier::when_used_as_spec(spec_neg)]
    pub fn neg(self) -> (r: Scalar)
        ensures
            r == self.spec_neg(),
    {
        if self.bits >= SIGN_BIT {
            Scalar { bits: self.bits - SIGN_BIT }
        } else {
            Scalar { bits: self.bits + SIGN_BIT }
        }
    }
}

/// Less-than is a strict order: nothing is below itself, no two scalars are
/// below each other, and what is below something that is below a third is
/// below the third. Two scalars that are not NaN and of which neither is
/// below the other have the same value.
pub proof fn lemma_lt_is_strict_order(a: Scalar, b: Scalar, c: Scalar)
    ensures
        !a.spec_lt(a),
        a.spec_lt(b) ==> !b.spec_lt(a),
        a.spec_lt(b) && b.spec_lt(c) ==> a.spec_lt(c),
        !a.spec_is_nan() && !b.spec_is_nan() && !a.spec_lt(b) && !b.spec_lt(a) ==> a.rank()
            == b.rank(),
{
}

/// Changing the sign twice gives the scalar back, and turns the order
/// round: `a` is below `b` exactly where `-b` is below `-a`.
pub proof fn lemma_neg_mirrors(a: Scalar, b: Scalar)
    ensures
        a.spec_neg().spec_neg() == a,
        a.spec_neg().spec_is_nan() == a.spec_is_nan(),
        a.spec_neg().spec_is_zero() == a.spec_is_zero(),
        a.spec_lt(b) == b.spec_neg().spec_lt(a.spec_neg()),
{
}

} // verus!
