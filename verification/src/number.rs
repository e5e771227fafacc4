//! IEEE 754 binary64 numbers, held by their bits.
//!
//! The library moves, compares and selects numbers; it never adds or multiplies
//! them. A [`Real`] is therefore the 64 bits of a double, and every comparison
//! is an integer comparison of sign and magnitude.

use vstd::prelude::*;

verus! {

/// The bit that carries the sign.
pub const SIGN_BIT: u64 = 0x8000_0000_0000_0000;

/// The magnitude of the two infinities; every larger magnitude is a NaN.
pub const INFINITE_MAGNITUDE: u64 = 0x7ff0_0000_0000_0000;

/// The bits of `1.0`.
pub const ONE_BITS: u64 = 0x3ff0_0000_0000_0000;

/// A binary64 number.
///
/// `==` compares bits, so `0.0` and `-0.0` differ under it and a NaN equals
/// itself. [`Real::equals`], [`Real::less`] and [`Real::at_most`] are the
/// floating-point comparisons.
#[derive(Clone, Copy, Debug, PartialEq, Eq, Structural)]
pub struct Real {
    /// The bits of the number.
    pub bits: u64,
}

impl Real {
    /// The bits without the sign.
    pub open spec fn magnitude(self) -> int {
        if self.bits >= SIGN_BIT {
            self.bits - SIGN_BIT
        } else {
            self.bits as int
        }
    }

    /// Whether the sign bit is set.
    pub open spec fn signed(self) -> bool {
        self.bits >= SIGN_BIT
    }

    /// Whether the number is a NaN.
    pub open spec fn nan(self) -> bool {
        self.magnitude() > INFINITE_MAGNITUDE
    }

    /// Whether the number is neither infinite nor a NaN.
    pub open spec fn finite(self) -> bool {
        self.magnitude() < INFINITE_MAGNITUDE
    }

    /// The place of a number in the order of the reals. Both zeros stand at 0.
    pub open spec fn ordinal(self) -> int {
        if self.signed() {
            -self.magnitude()
        } else {
            self.magnitude()
        }
    }

    /// The place of a number in the total order of all bit patterns: `-0.0`
    /// stands below `0.0`, and NaNs stand outside the infinities by their sign.
    pub open spec fn rank(self) -> int {
        if self.signed() {
            -self.magnitude() - 1
        } else {
            self.magnitude()
        }
    }

    /// `self < other`.
    pub open spec fn lt(self, other: Real) -> bool {
        !self.nan() && !other.nan() && self.ordinal() < other.ordinal()
    }

    /// `self <= other`.
    pub open spec fn le(self, other: Real) -> bool {
        !self.nan() && !other.nan() && self.ordinal() <= other.ordinal()
    }

    /// `self == other` in floating-point terms.
    pub open spec fn same_value(self, other: Real) -> bool {
        !self.nan() && !other.nan() && self.ordinal() == other.ordinal()
    }

    /// `0.0`.
    pub open spec fn zero_spec() -> Real {
        Real { bits: 0 }
    }

    /// `1.0`.
    pub open spec fn one_spec() -> Real {
        Real { bits: ONE_BITS }
    }

    /// `-1.0`.
    pub open spec fn minus_one_spec() -> Real {
        Real { bits: (SIGN_BIT + ONE_BITS) as u64 }
    }

    /// Positive infinity.
    pub open spec fn infinity_spec() -> Real {
        Real { bits: INFINITE_MAGNITUDE }
    }

    /// Negative infinity.
    pub open spec fn neg_infinity_spec() -> Real {
        Real { bits: (SIGN_BIT + INFINITE_MAGNITUDE) as u64 }
    }

    /// The number with its sign removed.
    pub open spec fn abs_spec(self) -> Real {
        Real { bits: self.magnitude() as u64 }
    }

    /// The number with its sign flipped.
    pub open spec fn neg_spec(self) -> Real {
        if self.signed() {
            Real { bits: self.magnitude() as u64 }
        } else {
            Real { bits: (self.bits + SIGN_BIT) as u64 }
        }
    }

    /// The larger of two numbers; a NaN gives way to the other.
    pub open spec fn max_spec(self, other: Real) -> Real {
        if self.nan() || self.lt(other) {
            other
        } else {
            self
        }
    }

    /// The smaller of two numbers; a NaN gives way to the other.
    pub open spec fn min_spec(self, other: Real) -> Real {
        if self.nan() || other.lt(self) {
            other
        } else {
            self
        }
    }

    /// Builds a number from its bits.
    pub fn from_bits(bits: u64) -> (r: Real)
        ensures
            r.bits == bits,
    {
        Real { bits }
    }

    /// `0.0`.
    pub fn zero() -> (r: Real)
        ensures
            r == Real::zero_spec(),
    {
        Real { bits: 0 }
    }

    /// `1.0`.
    pub fn one() -> (r: Real)
        ensures
            r == Real::one_spec(),
    {
        Real { bits: ONE_BITS }
    }

    /// `-1.0`.
    pub fn minus_one() -> (r: Real)
        ensures
            r == Real::minus_one_spec(),
    {
        Real { bits: SIGN_BIT + ONE_BITS }
    }

    /// Positive infinity.
    pub fn infinity() -> (r: Real)
        ensures
            r == Real::infinity_spec(),
    {
        Real { bits: INFINITE_MAGNITUDE }
    }

    /// Negative infinity.
    pub fn neg_infinity() -> (r: Real)
        ensures
            r == Real::neg_infinity_spec(),
    {
        Real { bits: SIGN_BIT + INFINITE_MAGNITUDE }
    }

    fn unsigned_bits(self) -> (m: u64)
        ensures
            m == self.magnitude(),
    {
        if self.bits >= SIGN_BIT {
            self.bits - SIGN_BIT
        } else {
            self.bits
        }
    }

    /// Whether the number is a NaN.
    pub fn is_nan(self) -> (r: bool)
        ensures
            r == self.nan(),
    {
        self.unsigned_bits() > INFINITE_MAGNITUDE
    }

    /// Whether the number is neither infinite nor a NaN.
    pub fn is_finite(self) -> (r: bool)
        ensures
            r == self.finite(),
    {
        self.unsigned_bits() < INFINITE_MAGNITUDE
    }

    /// The number with its sign removed.
    pub fn abs(self) -> (r: Real)
        ensures
            r == self.abs_spec(),
    {
        Real { bits: self.unsigned_bits() }
    }

    /// The number with its sign flipped.
    pub fn negated(self) -> (r: Real)
        ensures
            r == self.neg_spec(),
    {
        if self.bits >= SIGN_BIT {
            Real { bits: self.bits - SIGN_BIT }
        } else {
            Real { bits: self.bits + SIGN_BIT }
        }
    }

    /// `self < other`; false where either is a NaN.
    pub fn less(self, other: Real) -> (r: bool)
        ensures
            r == self.lt(other),
    {
        if self.is_nan() || other.is_nan() {
            return false;
        }
        let left: u64 = self.unsigned_bits();
        let right: u64 = other.unsigned_bits();
        if self.bits >= SIGN_BIT {
            if other.bits >= SIGN_BIT {
                right < left
            } else {
                left > 0 || right > 0
            }
        } else {
            other.bits < SIGN_BIT && left < right
        }
    }

    /// `self <= other`; false where either is a NaN.
    pub fn at_most(self, other: Real) -> (r: bool)
        ensures
            r == self.le(other),
    {
        !self.is_nan() && !other.is_nan() && !other.less(self)
    }

    /// `self == other` in floating-point terms: the zeros are equal, a NaN
    /// equals nothing.
    pub fn equals(self, other: Real) -> (r: bool)
        ensures
            r == self.same_value(other),
    {
        self.at_most(other) && other.at_most(self)
    }

    /// Whether `self` stands strictly before `other` in the total order of
    /// all bit patterns.
    pub fn ranks_below(self, other: Real) -> (r: bool)
        ensures
            r == (self.rank() < other.rank()),
    {
        let left: u64 = self.unsigned_bits();
        let right: u64 = other.unsigned_bits();
        if self.bits >= SIGN_BIT {
            other.bits < SIGN_BIT || right < left
        } else {
            other.bits < SIGN_BIT && left < right
        }
    }

    /// The larger of two numbers; a NaN gives way to the other.
    pub fn max(self, other: Real) -> (r: Real)
        ensures
            r == self.max_spec(other),
    {
        if self.is_nan() || self.less(other) {
            other
        } else {
            self
        }
    }

    /// The smaller of two numbers; a NaN gives way to the other.
    pub fn min(self, other: Real) -> (r: Real)
        ensures
            r == self.min_spec(other),
    {
        if self.is_nan() || other.less(self) {
            other
        } else {
            self
        }
    }

    /// The bits under which a number is cached: both zeros share one key.
    pub open spec fn cache_key_spec(self) -> u64 {
        if self.magnitude() == 0 {
            0
        } else {
            self.bits
        }
    }

    /// The bits under which a number is cached: both zeros share one key.
    pub fn cache_key(self) -> (key: u64)
        ensures
            key == self.cache_key_spec(),
    {
        if self.unsigned_bits() == 0 {
            0
        } else {
            self.bits
        }
    }
}

/// The total order tells any two numbers apart: equal ranks mean equal bits.
pub proof fn rank_is_injective(left: Real, right: Real)
    requires
        left.rank() == right.rank(),
    ensures
        left == right,
{
}

/// Away from NaNs the total order refines the floating-point order.
pub proof fn rank_refines_order(left: Real, right: Real)
    requires
        left.lt(right),
    ensures
        left.rank() < right.rank(),
{
}

/// Two numbers that are equal as floating-point values share one cache key.
pub proof fn equal_values_share_a_cache_key(left: Real, right: Real)
    requires
        left.same_value(right),
    ensures
        left.cache_key_spec() == right.cache_key_spec(),
{
}

/// The absolute value never lies below the zero and keeps finiteness.
pub proof fn abs_is_not_negative(value: Real)
    requires
        !value.nan(),
    ensures
        Real::zero_spec().le(value.abs_spec()),
        value.abs_spec().finite() == value.finite(),
{
}

} // verus!
