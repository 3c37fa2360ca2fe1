//! Axis-aligned boxes.

use crate::scalar::{DVec3, Scalar};
use vstd::prelude::*;

verus! {

/// Positive infinity.
pub open spec fn infinity() -> Scalar {
    Scalar { bits: 0x7ff0_0000_0000_0000 }
}

/// The box around a body: its corners, its centre, its size along each axis, and
/// the largest of these.
#[derive(Clone, Copy, Debug)]
pub struct BodyBox {
    pub min: DVec3,
    pub max: DVec3,
    pub center: DVec3,
    pub extent: DVec3,
    pub span: Scalar,
}

impl BodyBox {
    /// The box of a body that has no mesh.
    pub open spec fn nothing() -> BodyBox {
        BodyBox {
            min: crate::scalar::zero_vector(),
            max: crate::scalar::zero_vector(),
            center: crate::scalar::zero_vector(),
            extent: crate::scalar::zero_vector(),
            span: Scalar { bits: 0 },
        }
    }

    /// The box of a body that has no mesh.
    pub fn none() -> (r: BodyBox)
        ensures
            r == BodyBox::nothing(),
    {
        let zero = DVec3::splat(Scalar::zero());
        BodyBox { min: zero, max: zero, center: zero, extent: zero, span: Scalar::zero() }
    }
}

/// The least coordinate of axis `k` among the first `n` points, or infinity.
pub open spec fn lowest(positions: Seq<Scalar>, k: int, n: nat) -> Scalar
    decreases n,
{
    if n == 0 {
        infinity()
    } else {
        lowest(positions, k, (n - 1) as nat).smaller(positions[3 * (n - 1) + k])
    }
}

/// The greatest coordinate of axis `k` among the first `n` points, or minus
/// infinity.
pub open spec fn highest(positions: Seq<Scalar>, k: int, n: nat) -> Scalar
    decreases n,
{
    if n == 0 {
        infinity().flipped()
    } else {
        highest(positions, k, (n - 1) as nat).larger(positions[3 * (n - 1) + k])
    }
}

/// The corners of the box around the points of a flat coordinate list; the
/// origin twice if the list is empty.
pub fn positions_bounds(positions: &[Scalar]) -> (r: (DVec3, DVec3))
    ensures
        r == (if positions@.len() == 0 {
            (crate::scalar::zero_vector(), crate::scalar::zero_vector())
        } else {
            let n = positions@.len() / 3;
            (
                DVec3 {
                    x: lowest(positions@, 0, n),
                    y: lowest(positions@, 1, n),
                    z: lowest(positions@, 2, n),
                },
                DVec3 {
                    x: highest(positions@, 0, n),
                    y: highest(positions@, 1, n),
                    z: highest(positions@, 2, n),
                },
            )
        }),
{
    let total: usize = positions.len();
    if total == 0 {
        let zero = DVec3::splat(Scalar::zero());
        return (zero, zero);
    }
    let n: usize = total / 3;
    let mut min = DVec3::splat(Scalar::from_bits(0x7ff0_0000_0000_0000));
    let mut max = DVec3::splat(Scalar::from_bits(0xfff0_0000_0000_0000));
    let mut i: usize = 0;
    while i < n
        invariant
            total == positions@.len(),
            i <= n == total / 3,
            min == (DVec3 {
                x: lowest(positions@, 0, i as nat),
                y: lowest(positions@, 1, i as nat),
                z: lowest(positions@, 2, i as nat),
            }),
            max == (DVec3 {
                x: highest(positions@, 0, i as nat),
                y: highest(positions@, 1, i as nat),
                z: highest(positions@, 2, i as nat),
            }),
        decreases n - i,
    {
        let (x, y, z) = (positions[3 * i], positions[3 * i + 1], positions[3 * i + 2]);
        min = DVec3::new(min.x.min(x), min.y.min(y), min.z.min(z));
        max = DVec3::new(max.x.max(x), max.y.max(y), max.z.max(z));
        i += 1;
    }
    (min, max)
}

/// Every point lies in the box: no coordinate is below the least or above the
/// greatest.
pub proof fn law_points_lie_within(positions: Seq<Scalar>, k: int, n: nat, i: int)
    requires
        0 <= k < 3,
        3 * n <= positions.len(),
        0 <= i < n,
        !positions[3 * i + k].nan(),
    ensures
        !positions[3 * i + k].less(lowest(positions, k, n)),
        !highest(positions, k, n).less(positions[3 * i + k]),
        !lowest(positions, k, n).nan(),
        !highest(positions, k, n).nan(),
    decreases n,
{
    lemma_bounds_are_numbers(positions, k, (n - 1) as nat);
    if i < n - 1 {
        law_points_lie_within(positions, k, (n - 1) as nat, i);
    }
}

/// The box is no larger than need be: where there is a number among the coordinates,
/// each bound is the coordinate of some point.
pub proof fn law_bounds_are_reached(positions: Seq<Scalar>, k: int, n: nat, i: int)
    requires
        0 <= k < 3,
        3 * n <= positions.len(),
        0 <= i < n,
        !positions[3 * i + k].nan(),
    ensures
        exists|a: int|
            0 <= a < n && lowest(positions, k, n).equals(#[trigger] positions[3 * a + k]),
        exists|a: int|
            0 <= a < n && highest(positions, k, n).equals(#[trigger] positions[3 * a + k]),
    decreases n,
{
    let (low, high) = (lowest(positions, k, n), highest(positions, k, n));
    let last = positions[3 * (n - 1) + k];
    lemma_bounds_are_numbers(positions, k, (n - 1) as nat);
    if i < n - 1 {
        law_bounds_are_reached(positions, k, (n - 1) as nat, i);
        let before = lowest(positions, k, (n - 1) as nat);
        let a = choose|a: int| 0 <= a < n - 1 && before.equals(#[trigger] positions[3 * a + k]);
        assert(low == before || low == last);
        if low == before {
            assert(low.equals(positions[3 * a + k]));
        } else {
            assert(low.equals(positions[3 * (n - 1) + k]));
        }
        let above = highest(positions, k, (n - 1) as nat);
        let b = choose|b: int| 0 <= b < n - 1 && above.equals(#[trigger] positions[3 * b + k]);
        assert(high == above || high == last);
        if high == above {
            assert(high.equals(positions[3 * b + k]));
        } else {
            assert(high.equals(positions[3 * (n - 1) + k]));
        }
    } else {
        lemma_outside_or_reached(positions, k, (n - 1) as nat);
        let before = lowest(positions, k, (n - 1) as nat);
        let above = highest(positions, k, (n - 1) as nat);
        if low == before && !before.equals(last) && before != infinity() {
            let a = choose|a: int|
                0 <= a < n - 1 && before.equals(#[trigger] positions[3 * a + k]);
            assert(low.equals(positions[3 * a + k]));
        } else {
            assert(low.equals(positions[3 * (n - 1) + k]));
        }
        if high == above && !above.equals(last) && above != infinity().flipped() {
            let b = choose|b: int| 0 <= b < n - 1 && above.equals(#[trigger] positions[3 * b + k]);
            assert(high.equals(positions[3 * b + k]));
        } else {
            assert(high.equals(positions[3 * (n - 1) + k]));
        }
    }
}

/// A bound is reached, or still where it was before the first point.
proof fn lemma_outside_or_reached(positions: Seq<Scalar>, k: int, n: nat)
    ensures
        lowest(positions, k, n) == infinity() || exists|a: int|
            0 <= a < n && lowest(positions, k, n).equals(#[trigger] positions[3 * a + k]),
        highest(positions, k, n) == infinity().flipped() || exists|a: int|
            0 <= a < n && highest(positions, k, n).equals(#[trigger] positions[3 * a + k]),
    decreases n,
{
    if n > 0 {
        lemma_outside_or_reached(positions, k, (n - 1) as nat);
        lemma_bounds_are_numbers(positions, k, n);
        lemma_bounds_are_numbers(positions, k, (n - 1) as nat);
        let last = positions[3 * (n - 1) + k];
        let (before, above) = (
            lowest(positions, k, (n - 1) as nat),
            highest(positions, k, (n - 1) as nat),
        );
        if lowest(positions, k, n) == last {
            assert(lowest(positions, k, n).equals(positions[3 * (n - 1) + k]));
        } else if before != infinity() {
            let a = choose|a: int|
                0 <= a < n - 1 && before.equals(#[trigger] positions[3 * a + k]);
            assert(lowest(positions, k, n).equals(positions[3 * a + k]));
        }
        if highest(positions, k, n) == last {
            assert(highest(positions, k, n).equals(positions[3 * (n - 1) + k]));
        } else if above != infinity().flipped() {
            let b = choose|b: int| 0 <= b < n - 1 && above.equals(#[trigger] positions[3 * b + k]);
            assert(highest(positions, k, n).equals(positions[3 * b + k]));
        }
    }
}

/// The bounds are numbers, whatever the points hold.
proof fn lemma_bounds_are_numbers(positions: Seq<Scalar>, k: int, n: nat)
    ensures
        !lowest(positions, k, n).nan(),
        !highest(positions, k, n).nan(),
    decreases n,
{
    if n > 0 {
        lemma_bounds_are_numbers(positions, k, (n - 1) as nat);
    }
}

} // verus!
