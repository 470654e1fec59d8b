//! Single-precision numbers, held as their bit patterns.
//!
//! The state machine compares the numbers a browser reports and stores the
//! ones the geometry computes; it never calculates with them. A bit pattern
//! is enough for both: its order is the order of integers.

use vstd::prelude::*;

verus! {

/// A single-precision number, as its bit pattern.
#[derive(Clone, Copy, Debug, PartialEq, Eq, Structural)]
pub struct Single {
    pub bits: u32,
}

/// 0.0
pub const ZERO: u32 = 0;

/// 1.0
pub const ONE: u32 = 0x3f80_0000;

/// The smallest number above one, one plus the machine epsilon.
pub const ABOVE_ONE: u32 = 0x3f80_0001;

/// The machine epsilon, the distance from one to the next number.
pub const EPSILON: u32 = 0x3400_0000;

/// 800.0
pub const EIGHT_HUNDRED: u32 = 0x4448_0000;

/// 1280.0
pub const TWELVE_EIGHTY: u32 = 0x44a0_0000;

/// The bit pattern of positive infinity.
pub const INFINITY: u32 = 0x7f80_0000;

/// The sign bit alone.
pub const SIGN: u32 = 0x8000_0000;

impl Single {
    /// The pattern without its sign.
    pub open spec fn magnitude(self) -> int {
        if self.bits < SIGN {
            self.bits as int
        } else {
            self.bits - SIGN
        }
    }

    /// Not a number.
    pub open spec fn nan(self) -> bool {
        self.magnitude() > INFINITY
    }

    /// Neither infinite nor not a number.
    pub open spec fn finite(self) -> bool {
        self.magnitude() < INFINITY
    }

    /// The integer that stands where the number stands in the order of
    /// numbers; both zeros are 0.
    pub open spec fn rank(self) -> int {
        if self.bits < SIGN {
            self.bits as int
        } else {
            -self.magnitude()
        }
    }

    /// `self < other`, as numbers: false when either is not a number.
    pub open spec fn below(self, other: Single) -> bool {
        !self.nan() && !other.nan() && self.rank() < other.rank()
    }

    /// `self <= other`, as numbers.
    pub open spec fn at_most(self, other: Single) -> bool {
        !self.nan() && !other.nan() && self.rank() <= other.rank()
    }

    /// The integer that stands where the pattern stands in the total order
    /// of all patterns: negative before positive, -0 before 0, and what is
    /// not a number outermost.
    pub open spec fn place(self) -> int {
        if self.bits < SIGN {
            self.bits as int
        } else {
            SIGN - 1 - self.bits
        }
    }

    /// Where the pattern stands in the total order of all patterns.
    pub fn place_value(self) -> (r: i64)
        ensures
            r == self.place(),
    {
        if self.bits < SIGN {
            self.bits as i64
        } else {
            SIGN as i64 - 1 - self.bits as i64
        }
    }

    /// The number whose pattern is `bits`.
    pub fn from_bits(bits: u32) -> (r: Single)
        ensures
            r.bits == bits,
    {
        Single { bits }
    }

    /// The number is neither infinite nor not a number.
    pub fn is_finite(self) -> (r: bool)
        ensures
            r == self.finite(),
    {
        self.bits % SIGN < INFINITY
    }

    /// The number is not a number.
    pub fn is_nan(self) -> (r: bool)
        ensures
            r == self.nan(),
    {
        self.bits % SIGN > INFINITY
    }

    /// The number without its sign.
    pub fn abs(self) -> (r: Single)
        ensures
            r.bits == self.magnitude(),
    {
        Single { bits: self.bits % SIGN }
    }

    fn rank_value(self) -> (r: i64)
        ensures
            r == self.rank(),
    {
        if self.bits < SIGN {
            self.bits as i64
        } else {
            0 - (self.bits % SIGN) as i64
        }
    }

    /// `self < other`.
    pub fn lt(self, other: Single) -> (r: bool)
        ensures
            r == self.below(other),
    {
        !self.is_nan() && !other.is_nan() && self.rank_value() < other.rank_value()
    }

    /// `self <= other`.
    pub fn le(self, other: Single) -> (r: bool)
        ensures
            r == self.at_most(other),
    {
        !self.is_nan() && !other.is_nan() && self.rank_value() <= other.rank_value()
    }
}

} // verus!
