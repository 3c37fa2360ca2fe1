//! Length units. Lengths are kept in millimetres; the others are for display.

use crate::scalar::Scalar;
use vstd::prelude::*;

verus! {

/// A unit lengths can be shown in.
#[derive(Clone, Copy, PartialEq, Eq, Debug, Structural)]
pub enum LengthUnit {
    Millimeter,
    Centimeter,
    Meter,
    Inch,
}

impl LengthUnit {
    /// Millimetres per one of this unit: 1, 10, 1000 and 25.4.
    pub fn mm_per_unit(self) -> (r: Scalar)
        ensures
            r.bits == match self {
                LengthUnit::Millimeter => 0x3ff0_0000_0000_0000u64,
                LengthUnit::Centimeter => 0x4024_0000_0000_0000,
                LengthUnit::Meter => 0x408f_4000_0000_0000,
                LengthUnit::Inch => 0x4039_6666_6666_6666,
            },
            match self {
                LengthUnit::Millimeter => crate::scalar_laws::is_nearest(
                    r,
                    1,
                    1,
                    52,
                    0x10_0000_0000_0000,
                ),
                LengthUnit::Centimeter => crate::scalar_laws::is_nearest(
                    r,
                    10,
                    1,
                    49,
                    0x2_0000_0000_0000,
                ),
                LengthUnit::Meter => crate::scalar_laws::is_nearest(
                    r,
                    1000,
                    1,
                    43,
                    0x800_0000_0000,
                ),
                LengthUnit::Inch => crate::scalar_laws::is_nearest(
                    r,
                    254,
                    10,
                    48,
                    0x1_0000_0000_0000,
                ),
            },
    {
        let bits: u64 = match self {
            LengthUnit::Millimeter => 0x3ff0_0000_0000_0000,
            LengthUnit::Centimeter => 0x4024_0000_0000_0000,
            LengthUnit::Meter => 0x408f_4000_0000_0000,
            LengthUnit::Inch => 0x4039_6666_6666_6666,
        };
        Scalar::from_bits(bits)
    }

    /// The suffix shown behind a length.
    pub fn suffix(self) -> (r: &'static str)
        ensures
            r@ == match self {
                LengthUnit::Millimeter => "mm"@,
                LengthUnit::Centimeter => "cm"@,
                LengthUnit::Meter => "m"@,
                LengthUnit::Inch => "in"@,
            },
    {
        match self {
            LengthUnit::Millimeter => "mm",
            LengthUnit::Centimeter => "cm",
            LengthUnit::Meter => "m",
            LengthUnit::Inch => "in",
        }
    }
}

} // verus!
