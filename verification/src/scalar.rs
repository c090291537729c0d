//! Single-precision scalars held as their IEEE 754 bit patterns.
//!
//! A [`Scalar`] is the 32-bit pattern of a binary32 number. Everything that
//! depends only on the sign, exponent and fraction fields (comparison,
//! negation, minimum, maximum) is computed here on the bits and proved against
//! an integer model, the [`Scalar::rank`]. Rounding arithmetic is not part of
//! this module: see [`crate::math::Op`].

use vstd::prelude::*;
use vstd::std_specs::cmp::PartialEqSpecImpl;

verus! {

/// Bit pattern of positive infinity; every larger magnitude is a NaN.
pub const INFINITY_BITS: u32 = 0x7f80_0000;

/// Bit pattern of the number one.
pub const ONE_BITS: u32 = 0x3f80_0000;

/// The sign bit of a binary32 pattern.
pub const SIGN_BIT: u32 = 0x8000_0000;

/// A binary32 number, stored as its bit pattern.
#[derive(Clone, Copy, Debug)]
pub struct Scalar {
    pub bits: u32,
}

impl Scalar {
    /// The pattern with the sign bit cleared.
    pub open spec fn magnitude(self) -> int {
        if self.bits >= SIGN_BIT {
            self.bits - SIGN_BIT
        } else {
            self.bits as int
        }
    }

    /// Whether the sign bit is set.
    pub open spec fn negative(self) -> bool {
        self.bits >= SIGN_BIT
    }

    /// Whether the pattern encodes a NaN.
    pub open spec fn nan(self) -> bool {
        self.magnitude() > INFINITY_BITS
    }

    /// The position of a number on the integer line that orders binary32
    /// values as IEEE 754 does: both zeros are 0, the positive numbers count
    /// upwards to infinity, the negative ones mirror them. Meaningful only for
    /// patterns that are not NaN.
    pub open spec fn rank(self) -> int {
        if self.negative() {
            -self.magnitude()
        } else {
            self.magnitude()
        }
    }

    /// IEEE 754 equality: false as soon as one side is NaN, and the two zeros
    /// are equal.
    pub open spec fn equals(self, other: Scalar) -> bool {
        !self.nan() && !other.nan() && self.rank() == other.rank()
    }

    /// IEEE 754 `<`: false as soon as one side is NaN.
    pub open spec fn below(self, other: Scalar) -> bool {
        !self.nan() && !other.nan() && self.rank() < other.rank()
    }

    /// The two are one number: the same pattern, or equal as IEEE 754
    /// compares.
    pub open spec fn akin(self, other: Scalar) -> bool {
        self == other || self.equals(other)
    }

    /// Two patterns stand for the same value: both NaN, or equal numbers.
    pub open spec fn same_value(self, other: Scalar) -> bool {
        if self.nan() {
            other.nan()
        } else {
            !other.nan() && self.rank() == other.rank()
        }
    }

    /// The pattern with the sign bit flipped.
    pub open spec fn negated(self) -> Scalar {
        if self.bits >= SIGN_BIT {
            Scalar { bits: (self.bits - SIGN_BIT) as u32 }
        } else {
            Scalar { bits: (self.bits + SIGN_BIT) as u32 }
        }
    }

    /// The smaller of two numbers. A NaN gives way to the other operand, and
    /// of two equal numbers the first is taken.
    pub open spec fn lesser(self, other: Scalar) -> Scalar {
        if self.nan() {
            other
        } else if other.nan() {
            self
        } else if other.rank() < self.rank() {
            other
        } else {
            self
        }
    }

    /// The larger of two numbers. A NaN gives way to the other operand, and
    /// of two equal numbers the first is taken.
    pub open spec fn greater(self, other: Scalar) -> Scalar {
        if self.nan() {
            other
        } else if other.nan() {
            self
        } else if other.rank() > self.rank() {
            other
        } else {
            self
        }
    }

    /// Positive zero.
    pub open spec fn zero() -> Scalar {
        Scalar { bits: 0 }
    }

    /// The scalar with the given pattern.
    pub fn from_bits(bits: u32) -> (r: Scalar)
        ensures
            r.bits == bits,
    {
        Scalar { bits }
    }

    /// The pattern of the scalar.
    pub fn to_bits(self) -> (r: u32)
        ensures
            r == self.bits,
    {
        self.bits
    }

    /// The sign-and-magnitude pattern as a signed integer.
    fn key(self) -> (k: i64)
        ensures
            k == self.rank(),
    {
        if self.bits >= SIGN_BIT {
            -((self.bits - SIGN_BIT) as i64)
        } else {
            self.bits as i64
        }
    }

    /// Whether the scalar is a NaN.
    pub fn is_nan(self) -> (r: bool)
        ensures
            r == self.nan(),
    {
        let m: u32 = if self.bits >= SIGN_BIT {
            self.bits - SIGN_BIT
        } else {
            self.bits
        };
        m > INFINITY_BITS
    }

    /// Whether the number is one of the two zeros.
    pub fn is_zero(self) -> (r: bool)
        ensures
            r == (self.magnitude() == 0),
    {
        self.bits == 0 || self.bits == SIGN_BIT
    }

    /// `self < other` as IEEE 754 compares.
    pub fn lt(self, other: Scalar) -> (r: bool)
        ensures
            r == self.below(other),
    {
        !self.is_nan() && !other.is_nan() && self.key() < other.key()
    }

    /// `self > other` as IEEE 754 compares.
    pub fn gt(self, other: Scalar) -> (r: bool)
        ensures
            r == other.below(self),
    {
        other.lt(self)
    }

    /// The number with the opposite sign. NaN stays NaN.
    pub fn neg(self) -> (r: Scalar)
        ensures
            r == self.negated(),
    {
        if self.bits >= SIGN_BIT {
            Scalar { bits: self.bits - SIGN_BIT }
        } else {
            Scalar { bits: self.bits + SIGN_BIT }
        }
    }

    /// The minimum of two numbers, ignoring a NaN operand.
    pub fn min(self, other: Scalar) -> (r: Scalar)
        ensures
            r == self.lesser(other),
    {
        if self.is_nan() {
            other
        } else if other.is_nan() {
            self
        } else if other.key() < self.key() {
            other
        } else {
            self
        }
    }

    /// The maximum of two numbers, ignoring a NaN operand.
    pub fn max(self, other: Scalar) -> (r: Scalar)
        ensures
            r == self.greater(other),
    {
        if self.is_nan() {
            other
        } else if other.is_nan() {
            self
        } else if other.key() > self.key() {
            other
        } else {
            self
        }
    }
}

impl PartialEq for Scalar {
    /// IEEE 754 equality, not equality of patterns.
    fn eq(&self, other: &Scalar) -> (r: bool) {
        !self.is_nan() && !other.is_nan() && self.key() == other.key()
    }
}

impl PartialEqSpecImpl for Scalar {
    open spec fn obeys_eq_spec() -> bool {
        true
    }

    open spec fn eq_spec(&self, other: &Scalar) -> bool {
        self.equals(*other)
    }
}

} // verus!
