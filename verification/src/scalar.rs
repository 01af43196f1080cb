//! Single-precision values seen through their bit patterns.
//!
//! An IEEE 754 binary32 value is a sign bit followed by 31 magnitude bits.
//! Magnitudes above that of infinity are NaNs; every other value is ordered
//! exactly as its signed magnitude is, with the two zeros equal. That order
//! is all this crate needs of a number, so a `Scalar` carries the raw bits
//! and the comparisons below are defined on them.

use vstd::prelude::*;

verus! {

/// The bit that holds the sign of a binary32 value.
pub const SIGN_BIT: u32 = 0x8000_0000;

/// The magnitude bits of infinity; larger magnitudes are NaNs.
pub const INFINITY_BITS: u32 = 0x7F80_0000;

/// A binary32 value, held as its bit pattern.
#[derive(Clone, Copy, Debug)]
pub struct Scalar {
    pub bits: u32,
}

impl Scalar {
    /// The bit pattern without its sign bit.
    pub open spec fn magnitude(self) -> int {
        if self.bits >= SIGN_BIT {
            self.bits - SIGN_BIT
        } else {
            self.bits as int
        }
    }

    /// The value is not a number.
    pub open spec fn spec_is_nan(self) -> bool {
        self.magnitude() > INFINITY_BITS
    }

    /// The position of a number on the line of binary32 values: its signed
    /// magnitude. Both zeros have rank 0, the infinities have the extreme
    /// ranks. Meaningless for a NaN.
    pub open spec fn rank(self) -> int {
        if self.bits >= SIGN_BIT {
            -self.magnitude()
        } else {
            self.magnitude()
        }
    }

    /// Both are numbers of the same value (the two zeros count as one
    /// value), or both are NaNs.
    pub open spec fn same_value(self, other: Scalar) -> bool {
        if self.spec_is_nan() {
            other.spec_is_nan()
        } else {
            !other.spec_is_nan() && self.rank() == other.rank()
        }
    }

    /// `self < other` as IEEE 754 orders them: false when either is a NaN.
    pub open spec fn spec_lt(self, other: Scalar) -> bool {
        !self.spec_is_nan() && !other.spec_is_nan() && self.rank() < other.rank()
    }

    /// `self <= other` as IEEE 754 orders them: false when either is a NaN.
    pub open spec fn spec_le(self, other: Scalar) -> bool {
        !self.spec_is_nan() && !other.spec_is_nan() && self.rank() <= other.rank()
    }

    /// `self > other`, which is `other < self`.
    pub open spec fn spec_gt(self, other: Scalar) -> bool {
        other.spec_lt(self)
    }

    /// `self >= other`, which is `other <= self`.
    pub open spec fn spec_ge(self, other: Scalar) -> bool {
        other.spec_le(self)
    }

    /// The lesser of two values, ignoring a NaN: if one is a NaN the other
    /// is taken. Of two equal numbers the first is taken.
    pub open spec fn spec_min(self, other: Scalar) -> Scalar {
        if self.spec_is_nan() {
            other
        } else if other.spec_lt(self) {
            other
        } else {
            self
        }
    }

    /// The greater of two values, ignoring a NaN: if one is a NaN the other
    /// is taken. Of two equal numbers the first is taken.
    pub open spec fn spec_max(self, other: Scalar) -> Scalar {
        if self.spec_is_nan() {
            other
        } else if self.spec_lt(other) {
            other
        } else {
            self
        }
    }

    /// Positive zero: all bits clear.
    pub open spec fn spec_zero() -> Scalar {
        Scalar { bits: 0 }
    }

    /// Wraps a bit pattern.
    pub fn from_bits(bits: u32) -> (s: Scalar)
        ensures
            s.bits == bits,
    {
        Scalar { bits }
    }

    /// The bit pattern.
    pub fn to_bits(self) -> (bits: u32)
        ensures
            bits == self.bits,
    {
        self.bits
    }

    /// Positive zero.
    #[verifier::when_used_as_spec(spec_zero)]
    pub fn zero() -> (s: Scalar)
        ensures
            s == Scalar::spec_zero(),
    {
        Scalar { bits: 0 }
    }

    #[verifier::when_used_as_spec(spec_is_nan)]
    pub fn is_nan(self) -> (r: bool)
        ensures
            r == self.spec_is_nan(),
    {
        let magnitude: u32 = if self.bits >= SIGN_BIT {
            self.bits - SIGN_BIT
        } else {
            self.bits
        };
        magnitude > INFINITY_BITS
    }

    /// The rank as a machine integer.
    pub fn ordinal(self) -> (r: i64)
        ensures
            r == self.rank(),
    {
        if self.bits >= SIGN_BIT {
            let magnitude: u32 = self.bits - SIGN_BIT;
            -(magnitude as i64)
        } else {
            self.bits as i64
        }
    }

    #[verifier::when_used_as_spec(spec_lt)]
    pub fn lt(self, other: Scalar) -> (r: bool)
        ensures
            r == self.spec_lt(other),
    {
        !self.is_nan() && !other.is_nan() && self.ordinal() < other.ordinal()
    }

    #[verifier::when_used_as_spec(spec_le)]
    pub fn le(self, other: Scalar) -> (r: bool)
        ensures
            r == self.spec_le(other),
    {
        !self.is_nan() && !other.is_nan() && self.ordinal() <= other.ordinal()
    }

    #[verifier::when_used_as_spec(spec_gt)]
    pub fn gt(self, other: Scalar) -> (r: bool)
        ensures
            r == self.spec_gt(other),
    {
        other.lt(self)
    }

    #[verifier::when_used_as_spec(spec_ge)]
    pub fn ge(self, other: Scalar) -> (r: bool)
        ensures
            r == self.spec_ge(other),
    {
        other.le(self)
    }

    #[verifier::when_used_as_spec(spec_min)]
    pub fn min(self, other: Scalar) -> (r: Scalar)
        ensures
            r == self.spec_min(other),
    {
        if self.is_nan() {
            other
        } else if other.lt(self) {
            other
        } else {
            self
        }
    }

    #[verifier::when_used_as_spec(spec_max)]
    pub fn max(self, other: Scalar) -> (r: Scalar)
        ensures
            r == self.spec_max(other),
    {
        if self.is_nan() {
            other
        } else if self.lt(other) {
            other
        } else {
            self
        }
    }
}

} // verus!
