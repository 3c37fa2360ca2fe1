//! Coordinates and lengths, held as bit patterns.
//!
//! A [`Scalar`] is a binary64 number given by its sixty-four bits. The library
//! stores, compares and hands on such numbers and never computes with them, so
//! the pattern is all it needs. Equality and order are those of the numbers the
//! patterns stand for: a NaN equals nothing and is ordered with nothing, and the
//! two zeros are equal.

use std::cmp::Ordering;
use vstd::prelude::*;
use vstd::std_specs::cmp::{PartialEqSpecImpl, PartialOrdSpecImpl};

verus! {

/// The bit that is set in the patterns of negative numbers.
pub const SIGN_BIT: u64 = 0x8000_0000_0000_0000;

/// The pattern of positive infinity. A magnitude above it is a NaN.
pub const INFINITY_BITS: u64 = 0x7ff0_0000_0000_0000;

/// A binary64 number, by its bits.
#[derive(Clone, Copy, Debug)]
pub struct Scalar {
    pub bits: u64,
}

impl Scalar {
    /// The pattern without its sign bit.
    pub open spec fn magnitude(self) -> int {
        if self.bits >= SIGN_BIT {
            self.bits - SIGN_BIT
        } else {
            self.bits as int
        }
    }

    /// Whether the pattern stands for no number.
    pub open spec fn nan(self) -> bool {
        self.magnitude() > INFINITY_BITS
    }

    /// Where the number stands among all numbers: patterns of the same sign are
    /// ordered as their magnitudes, and both zeros stand at `0`.
    pub open spec fn rank(self) -> int {
        if self.bits >= SIGN_BIT {
            -self.magnitude()
        } else {
            self.magnitude()
        }
    }

    /// The pattern with its sign bit flipped.
    pub open spec fn flipped(self) -> Scalar {
        if self.bits >= SIGN_BIT {
            Scalar { bits: (self.bits - SIGN_BIT) as u64 }
        } else {
            Scalar { bits: (self.bits + SIGN_BIT) as u64 }
        }
    }

    /// Numeric equality.
    pub open spec fn equals(self, other: Scalar) -> bool {
        !self.nan() && !other.nan() && self.rank() == other.rank()
    }

    /// Numeric order.
    pub open spec fn less(self, other: Scalar) -> bool {
        !self.nan() && !other.nan() && self.rank() < other.rank()
    }

    /// The larger of two; of a number and what is none, the number.
    pub open spec fn larger(self, other: Scalar) -> Scalar {
        if self.nan() || self.less(other) {
            other
        } else {
            self
        }
    }

    /// The smaller of two; of a number and what is none, the number.
    pub open spec fn smaller(self, other: Scalar) -> Scalar {
        if self.nan() || other.less(self) {
            other
        } else {
            self
        }
    }

    /// The number with the given pattern.
    pub fn from_bits(bits: u64) -> (r: Scalar)
        ensures
            r.bits == bits,
    {
        Scalar { bits }
    }

    /// The number's pattern.
    pub fn to_bits(self) -> (bits: u64)
        ensures
            bits == self.bits,
    {
        self.bits
    }

    /// Zero.
    pub fn zero() -> (r: Scalar)
        ensures
            r.bits == 0,
    {
        Scalar { bits: 0 }
    }

    /// One.
    pub fn one() -> (r: Scalar)
        ensures
            r.bits == 0x3ff0_0000_0000_0000u64,
    {
        Scalar { bits: 0x3ff0_0000_0000_0000 }
    }

    /// Whether the pattern stands for no number.
    pub fn is_nan(self) -> (r: bool)
        ensures
            r == self.nan(),
    {
        if self.bits >= SIGN_BIT {
            self.bits - SIGN_BIT > INFINITY_BITS
        } else {
            self.bits > INFINITY_BITS
        }
    }

    /// The larger of two; of a number and what is none, the number.
    pub fn max(self, other: Scalar) -> (r: Scalar)
        ensures
            r == self.larger(other),
    {
        if self.is_nan() || self < other {
            other
        } else {
            self
        }
    }

    /// The smaller of two; of a number and what is none, the number.
    pub fn min(self, other: Scalar) -> (r: Scalar)
        ensures
            r == self.smaller(other),
    {
        if self.is_nan() || other < self {
            other
        } else {
            self
        }
    }

    /// The number with its sign bit flipped.
    pub fn negated(self) -> (r: Scalar)
        ensures
            r == self.flipped(),
    {
        if self.bits >= SIGN_BIT {
            Scalar { bits: self.bits - SIGN_BIT }
        } else {
            Scalar { bits: self.bits + SIGN_BIT }
        }
    }

    /// The number with its sign bit cleared: its absolute value.
    pub fn abs(self) -> (r: Scalar)
        ensures
            r.bits == self.magnitude(),
    {
        if self.bits >= SIGN_BIT {
            Scalar { bits: self.bits - SIGN_BIT }
        } else {
            self
        }
    }
}

impl PartialEq for Scalar {
    fn eq(&self, other: &Scalar) -> (r: bool) {
        if self.is_nan() || other.is_nan() {
            false
        } else {
            self.bits == other.bits || (self.abs().bits == 0 && other.abs().bits == 0)
        }
    }
}

impl PartialEqSpecImpl for Scalar {
    open spec fn obeys_eq_spec() -> bool {
        true
    }

    open spec fn eq_spec(&self, other: &Scalar) -> bool {
        self.equals(*other)
    }
}

impl PartialOrd for Scalar {
    fn partial_cmp(&self, other: &Scalar) -> (r: Option<Ordering>) {
        if self.is_nan() || other.is_nan() {
            return None;
        }
        let (a, b) = (self.abs().bits, other.abs().bits);
        let (left, right) = (self.bits >= SIGN_BIT, other.bits >= SIGN_BIT);
        if *self == *other {
            Some(Ordering::Equal)
        } else if left && (!right || b < a) {
            Some(Ordering::Less)
        } else if !left && !right && a < b {
            Some(Ordering::Less)
        } else {
            Some(Ordering::Greater)
        }
    }
}

impl PartialOrdSpecImpl for Scalar {
    open spec fn obeys_partial_cmp_spec() -> bool {
        true
    }

    open spec fn partial_cmp_spec(&self, other: &Scalar) -> Option<Ordering> {
        if self.nan() || other.nan() {
            None
        } else if self.rank() < other.rank() {
            Some(Ordering::Less)
        } else if self.rank() == other.rank() {
            Some(Ordering::Equal)
        } else {
            Some(Ordering::Greater)
        }
    }
}

/// A point or direction in space.
#[derive(Clone, Copy, Debug)]
pub struct DVec3 {
    pub x: Scalar,
    pub y: Scalar,
    pub z: Scalar,
}

impl DVec3 {
    /// Componentwise numeric equality.
    pub open spec fn equals(self, other: DVec3) -> bool {
        self.x.equals(other.x) && self.y.equals(other.y) && self.z.equals(other.z)
    }

    /// The vector with the given components.
    pub fn new(x: Scalar, y: Scalar, z: Scalar) -> (r: DVec3)
        ensures
            r == (DVec3 { x, y, z }),
    {
        DVec3 { x, y, z }
    }

    /// The vector whose components are all `value`.
    pub fn splat(value: Scalar) -> (r: DVec3)
        ensures
            r == (DVec3 { x: value, y: value, z: value }),
    {
        DVec3 { x: value, y: value, z: value }
    }
}

impl PartialEq for DVec3 {
    fn eq(&self, other: &DVec3) -> (r: bool) {
        self.x == other.x && self.y == other.y && self.z == other.z
    }
}

impl PartialEqSpecImpl for DVec3 {
    open spec fn obeys_eq_spec() -> bool {
        true
    }

    open spec fn eq_spec(&self, other: &DVec3) -> bool {
        self.equals(*other)
    }
}

/// The origin.
pub open spec fn zero_vector() -> DVec3 {
    DVec3 { x: Scalar { bits: 0 }, y: Scalar { bits: 0 }, z: Scalar { bits: 0 } }
}

/// The unit vector along X.
pub open spec fn unit_x() -> DVec3 {
    DVec3 { x: Scalar { bits: 0x3ff0_0000_0000_0000 }, y: Scalar { bits: 0 }, z: Scalar { bits: 0 } }
}

/// The unit vector along Y.
pub open spec fn unit_y() -> DVec3 {
    DVec3 { x: Scalar { bits: 0 }, y: Scalar { bits: 0x3ff0_0000_0000_0000 }, z: Scalar { bits: 0 } }
}

/// The unit vector along Z.
pub open spec fn unit_z() -> DVec3 {
    DVec3 { x: Scalar { bits: 0 }, y: Scalar { bits: 0 }, z: Scalar { bits: 0x3ff0_0000_0000_0000 } }
}

} // verus!
