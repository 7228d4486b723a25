//! Scores and probabilities as the search hands them over: single-precision
//! numbers, held by their IEEE 754 bit patterns and compared as numbers.

use vstd::prelude::*;

verus! {

/// The bit pattern of zero.
pub const ZERO_BITS: u32 = 0x0000_0000;

/// The bit pattern of one.
pub const ONE_BITS: u32 = 0x3f80_0000;

/// The bit pattern that has only the sign bit set.
pub const SIGN_BIT: u32 = 0x8000_0000;

/// The bit pattern of positive infinity; every pattern whose magnitude lies
/// above it is not a number.
pub const INFINITY_BITS: u32 = 0x7f80_0000;

/// A single-precision number by its bit pattern: one sign bit, then eight
/// bits of exponent and twenty-three of fraction.
#[derive(Debug, Copy, Clone, PartialEq, Eq, Structural)]
pub struct Single(pub u32);

impl Single {
    /// The pattern without its sign bit.
    pub open spec fn magnitude(self) -> int {
        if self.0 >= SIGN_BIT {
            self.0 - SIGN_BIT
        } else {
            self.0 as int
        }
    }

    /// The sign bit is set.
    pub open spec fn negative(self) -> bool {
        self.0 >= SIGN_BIT
    }

    /// The pattern stands for no number.
    pub open spec fn nan(self) -> bool {
        self.magnitude() > INFINITY_BITS
    }

    /// An integer that orders the patterns as their numbers are ordered:
    /// among numbers of one sign the magnitudes grow with the numbers, and
    /// the two zeros share the key 0.
    pub open spec fn key(self) -> int {
        if self.negative() {
            -self.magnitude()
        } else {
            self.magnitude()
        }
    }

    /// This number is greater than `other`. Nothing is greater than, or
    /// less than, a pattern that is not a number.
    pub open spec fn above(self, other: Single) -> bool {
        !self.nan() && !other.nan() && self.key() > other.key()
    }

    /// This number is less than `other`.
    pub open spec fn below(self, other: Single) -> bool {
        other.above(self)
    }

    /// Whether the pattern stands for no number.
    pub fn is_nan(self) -> (nan: bool)
        ensures
            nan == self.nan(),
    {
        let magnitude = if self.0 >= SIGN_BIT {
            self.0 - SIGN_BIT
        } else {
            self.0
        };
        magnitude > INFINITY_BITS
    }

    /// The key of a pattern, as a machine integer.
    fn order_key(self) -> (key: i64)
        ensures
            key == self.key(),
    {
        if self.0 >= SIGN_BIT {
            -((self.0 - SIGN_BIT) as i64)
        } else {
            self.0 as i64
        }
    }

    /// Whether this number is greater than `other`.
    pub fn gt(self, other: Single) -> (greater: bool)
        ensures
            greater == self.above(other),
    {
        !self.is_nan() && !other.is_nan() && self.order_key() > other.order_key()
    }

    /// Whether this number is less than `other`.
    pub fn lt(self, other: Single) -> (less: bool)
        ensures
            less == self.below(other),
    {
        other.gt(self)
    }
}

/// "Greater than" is a strict order: nothing is above itself, and what is
/// above a number that is above a third is above the third.
pub proof fn lemma_above_strict_order(a: Single, b: Single, c: Single)
    ensures
        !a.above(a),
        a.above(b) ==> !b.above(a),
        a.above(b) && b.above(c) ==> a.above(c),
{
}

/// Of two numbers, one is above the other or they are equal as numbers.
pub proof fn lemma_above_total(a: Single, b: Single)
    requires
        !a.nan(),
        !b.nan(),
    ensures
        a.above(b) || b.above(a) || a.key() == b.key(),
{
}

} // verus!
