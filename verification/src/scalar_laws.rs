//! What holds of numbers given by their bits.

use crate::scalar::Scalar;
use vstd::prelude::*;

verus! {

/// Numbers are ordered: of two numbers one is less or they are equal, never both; what
/// is less than something less is less; and what is no number is neither less nor
/// equal.
pub proof fn law_numbers_are_ordered(a: Scalar, b: Scalar, c: Scalar)
    ensures
        !a.nan() && !b.nan() ==> a.less(b) || b.less(a) || a.equals(b),
        !(a.less(b) && b.less(a)),
        !(a.less(b) && a.equals(b)),
        a.less(b) && b.less(c) ==> a.less(c),
        a.equals(b) ==> b.equals(a),
        a.equals(b) && b.equals(c) ==> a.equals(c),
        a.equals(a) == !a.nan(),
        a.nan() || b.nan() ==> !a.less(b) && !a.equals(b),
{
}

/// The order is that of the values: without the sign, a larger pattern is a larger
/// number, up to infinity; the sign turns the order round; zero is neither above nor
/// below its negative; and one is above zero.
pub proof fn law_the_order_is_that_of_the_values(a: Scalar, b: Scalar)
    ensures
        a.bits < 0x8000_0000_0000_0000 && b.bits <= 0x7ff0_0000_0000_0000 ==> (a.less(b) == (a.bits
            < b.bits)),
        a.nan() == (a.bits as int % 0x8000_0000_0000_0000 > 0x7ff0_0000_0000_0000),
        a.flipped().flipped() == a,
        a.flipped() != a,
        a.flipped().nan() == a.nan(),
        a.less(b) == b.flipped().less(a.flipped()),
        (Scalar { bits: 0 }).equals((Scalar { bits: 0 }).flipped()),
        (Scalar { bits: 0 }).less(Scalar { bits: 0x3ff0_0000_0000_0000 }),
        a.bits < 0x8000_0000_0000_0000 && !a.nan() ==> !a.less(Scalar { bits: 0 }),
{
}

/// The larger of two numbers is one of them and not less than either, and the smaller
/// one of them and not above either; beside what is no number, it is the other.
pub proof fn law_the_larger_and_the_smaller(a: Scalar, b: Scalar)
    ensures
        a.larger(b) == a || a.larger(b) == b,
        a.smaller(b) == a || a.smaller(b) == b,
        !a.larger(b).less(a) && !a.larger(b).less(b),
        !a.less(a.smaller(b)) && !b.less(a.smaller(b)),
        a.nan() ==> a.larger(b) == b && a.smaller(b) == b,
        b.nan() ==> a.nan() || a.larger(b) == a && a.smaller(b) == a,
{
}

/// The significand of a normal number, a whole number.
pub open spec fn significand(s: Scalar) -> int {
    s.bits as int % 0x10_0000_0000_0000 + 0x10_0000_0000_0000
}

/// The power of two that the significand is multiplied by, counted up from the least
/// that any number has.
pub open spec fn power(s: Scalar) -> int {
    s.bits as int / 0x10_0000_0000_0000
}

/// The number is positive and the nearest there is to a fraction. With `unit` the
/// power of two that undoes the number's own, the significand times the denominator is
/// off the numerator times that by half the denominator at most.
pub open spec fn is_nearest(s: Scalar, numerator: int, denominator: int, exponent: int, unit: int) -> bool {
    let off = denominator * significand(s) - numerator * unit;
    power(s) == 1075 - exponent && -denominator <= 2 * off <= denominator
}

/// The limits of drags are what they are called: the numbers nearest to a tenth, a
/// thousandth, a ten-thousandth, a millionth and a billionth.
pub proof fn law_limits_are_the_nearest_numbers()
    ensures
        is_nearest(crate::drags::least_size(), 1, 10, 56, 0x100_0000_0000_0000),
        is_nearest(crate::drags::milli(), 1, 1000, 62, 0x4000_0000_0000_0000),
        is_nearest(crate::drags::tenth_milli(), 1, 10000, 66, 0x4_0000_0000_0000_0000),
        is_nearest(crate::drags::micro(), 1, 1000000, 72, 0x100_0000_0000_0000_0000),
        is_nearest(crate::drags::nano(), 1, 1000000000, 82, 0x4_0000_0000_0000_0000_0000),
        crate::drags::unscaled().x == crate::drags::unscaled().y,
        crate::drags::unscaled().y == crate::drags::unscaled().z,
        is_nearest(crate::drags::unscaled().x, 1, 1, 52, 0x10_0000_0000_0000),
{
}

/// The reaches are what they are called: ten pixels to a point, a ring or an arrow,
/// eight to a line, and a click may wander four. A fillet starts with two millimetres,
/// and a cubic is marked by a one.
pub proof fn law_reaches_are_whole_numbers(travel: Scalar)
    ensures
        is_nearest(crate::session::point_reach(), 10, 1, 49, 0x2_0000_0000_0000),
        is_nearest(crate::session::line_reach(), 8, 1, 49, 0x2_0000_0000_0000),
        is_nearest(crate::viewport::handle_reach(), 10, 1, 49, 0x2_0000_0000_0000),
        is_nearest(crate::modeler::default_radius(), 2, 1, 51, 0x8_0000_0000_0000),
        is_nearest(crate::kernel::cubic_mark(), 1, 1, 52, 0x10_0000_0000_0000),
        is_nearest(crate::parts::forty(), 40, 1, 47, 0x8000_0000_0000),
        is_nearest(Scalar { bits: 0x4010_0000_0000_0000 }, 4, 1, 50, 0x4_0000_0000_0000),
        crate::viewport::beyond_click(Some(travel)) == (Scalar {
            bits: 0x4010_0000_0000_0000,
        }).less(travel),
        !crate::viewport::beyond_click(None),
{
}

/// The world's axes are one long, each along its own component, and the origin is at
/// zero.
pub proof fn law_axes_are_one_long()
    ensures
        ({
            let (x, y, z) = (
                crate::scalar::unit_x(),
                crate::scalar::unit_y(),
                crate::scalar::unit_z(),
            );
            let (one, zero) = (Scalar { bits: 0x3ff0_0000_0000_0000 }, Scalar { bits: 0 });
            &&& is_nearest(one, 1, 1, 52, 0x10_0000_0000_0000)
            &&& x.x == one && x.y == zero && x.z == zero
            &&& y.x == zero && y.y == one && y.z == zero
            &&& z.x == zero && z.y == zero && z.z == one
            &&& crate::scalar::zero_vector().x == zero && crate::scalar::zero_vector().y == zero
                && crate::scalar::zero_vector().z == zero
        }),
{
}

} // verus!
