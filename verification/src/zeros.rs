//! When operations are equal.
//!
//! Both zeros are equal numbers with different bits, and they are the only such
//! pair. Where no negative zero occurs, operations that are equal are the same. What is
//! no number is equal to nothing.

use crate::features::{KindModel, PathModel};
use crate::scalar::{DVec3, Scalar, SIGN_BIT};
use crate::sketch::{Constraint, Profile, SketchBezier, SketchPlane, SketchPoint};
use crate::sketch2d::SketchModel;
use vstd::prelude::*;

verus! {

impl Scalar {
    /// Anything but negative zero.
    pub open spec fn unsigned_zero(self) -> bool {
        self.bits != SIGN_BIT
    }
}

impl DVec3 {
    /// No component is negative zero.
    pub open spec fn unsigned_zero(self) -> bool {
        self.x.unsigned_zero() && self.y.unsigned_zero() && self.z.unsigned_zero()
    }
}

/// Neither coordinate is negative zero.
pub open spec fn unsigned_place(p: [Scalar; 2]) -> bool {
    p[0].unsigned_zero() && p[1].unsigned_zero()
}

impl SketchPlane {
    /// No number of the frame is negative zero.
    pub open spec fn unsigned_zero(self) -> bool {
        match self {
            SketchPlane::Custom { origin, x_dir, y_dir } => origin.unsigned_zero()
                && x_dir.unsigned_zero() && y_dir.unsigned_zero(),
            _ => true,
        }
    }
}

impl Profile {
    /// No measure is negative zero.
    pub open spec fn unsigned_zero(self) -> bool {
        match self {
            Profile::Rectangle { width, height } => width.unsigned_zero() && height.unsigned_zero(),
            Profile::Circle { radius } => radius.unsigned_zero(),
        }
    }
}

impl SketchPoint {
    /// Neither coordinate is negative zero.
    pub open spec fn unsigned_zero(self) -> bool {
        self.x.unsigned_zero() && self.y.unsigned_zero()
    }
}

impl SketchBezier {
    /// No coordinate of a handle is negative zero.
    pub open spec fn unsigned_zero(self) -> bool {
        unsigned_place(self.c1) && unsigned_place(self.c2)
    }
}

impl Constraint {
    /// The dimension, if there is one, is not negative zero.
    pub open spec fn unsigned_zero(self) -> bool {
        match self {
            Constraint::Distance(_, _, v) => v.unsigned_zero(),
            Constraint::Radius(_, v) => v.unsigned_zero(),
            _ => true,
        }
    }
}

impl SketchModel {
    /// No number of the sketch is negative zero.
    pub open spec fn unsigned_zero(self) -> bool {
        &&& forall|i: int| 0 <= i < self.points.len() ==> (#[trigger] self.points[i]).unsigned_zero()
        &&& forall|i: int|
            0 <= i < self.circles.len() ==> (#[trigger] self.circles[i]).radius.unsigned_zero()
        &&& forall|i: int|
            0 <= i < self.constraints.len() ==> (#[trigger] self.constraints[i]).unsigned_zero()
        &&& forall|i: int|
            0 <= i < self.beziers.len() ==> (#[trigger] self.beziers[i]).unsigned_zero()
    }
}

impl KindModel {
    /// No parameter is negative zero.
    pub open spec fn unsigned_zero(self) -> bool {
        match self {
            KindModel::Box { size } => size.unsigned_zero(),
            KindModel::Cylinder { radius, height } => radius.unsigned_zero()
                && height.unsigned_zero(),
            KindModel::Sphere { radius } => radius.unsigned_zero(),
            KindModel::Sketch { plane, profile } => plane.unsigned_zero()
                && profile.unsigned_zero(),
            KindModel::ConstraintSketch { plane, sketch } => plane.unsigned_zero()
                && sketch.unsigned_zero(),
            KindModel::Extrude { distance, .. } => distance.unsigned_zero(),
            KindModel::Translate { offset, .. } => offset.unsigned_zero(),
            KindModel::Boolean { .. } => true,
            KindModel::FilletAll { radius, .. } => radius.unsigned_zero(),
            KindModel::Fillet { edges, radius, .. } => radius.unsigned_zero() && forall|i: int|
                0 <= i < edges.len() ==> (#[trigger] edges[i]).point.unsigned_zero(),
            KindModel::PushPull { anchor, distance, .. } => anchor.point.unsigned_zero()
                && anchor.normal.unsigned_zero() && distance.unsigned_zero(),
            KindModel::Rotate { axis, angle, center, .. } => axis.unsigned_zero()
                && angle.unsigned_zero() && center.unsigned_zero(),
            KindModel::Scale { factors, anchor, .. } => factors.unsigned_zero()
                && anchor.unsigned_zero(),
            KindModel::Revolve { axis, angle, .. } => axis.point.unsigned_zero()
                && angle.unsigned_zero(),
            KindModel::Mirror { origin, normal, .. } => origin.unsigned_zero()
                && normal.unsigned_zero(),
            KindModel::Group { .. } => true,
            KindModel::Sweep { path: PathModel::Planar { plane, sketch }, .. }
                => plane.unsigned_zero() && sketch.unsigned_zero(),
        }
    }
}

/// Equal places without negative zeros are the same place.
proof fn lemma_same_place(a: [Scalar; 2], b: [Scalar; 2])
    requires
        crate::sketch::same_place(a, b),
        unsigned_place(a),
        unsigned_place(b),
    ensures
        a == b,
{
    assert(a[0] == b[0] && a[1] == b[1]);
    assert(a@ =~= b@);
    assert(a =~= b);
}

/// Equal sketches without negative zeros are the same sketch.
proof fn lemma_same_sketch(a: SketchModel, b: SketchModel)
    requires
        a.equals(b),
        a.unsigned_zero(),
        b.unsigned_zero(),
    ensures
        a == b,
{
    assert forall|i: int| 0 <= i < a.points.len() implies #[trigger] a.points[i] == b.points[i] by {
        assert(a.points[i].equals(b.points[i]));
        assert(b.points[i].unsigned_zero());
    }
    assert forall|i: int| 0 <= i < a.circles.len() implies #[trigger] a.circles[i]
        == b.circles[i] by {
        assert(a.circles[i].equals(b.circles[i]));
        assert(b.circles[i].radius.unsigned_zero());
    }
    assert forall|i: int| 0 <= i < a.constraints.len() implies #[trigger] a.constraints[i]
        == b.constraints[i] by {
        assert(a.constraints[i].equals(b.constraints[i]));
        assert(b.constraints[i].unsigned_zero());
    }
    assert forall|i: int| 0 <= i < a.beziers.len() implies #[trigger] a.beziers[i]
        == b.beziers[i] by {
        assert(a.beziers[i].equals(b.beziers[i]));
        assert(b.beziers[i].unsigned_zero());
        lemma_same_place(a.beziers[i].c1, b.beziers[i].c1);
        lemma_same_place(a.beziers[i].c2, b.beziers[i].c2);
    }
    assert(a.points =~= b.points);
    assert(a.circles =~= b.circles);
    assert(a.constraints =~= b.constraints);
    assert(a.beziers =~= b.beziers);
}

/// Equal operations without negative zeros are the same operation.
pub proof fn law_equal_operations_are_the_same(a: KindModel, b: KindModel)
    requires
        a.equals(b),
        a.unsigned_zero(),
        b.unsigned_zero(),
    ensures
        a == b,
{
    match (a, b) {
        (
            KindModel::ConstraintSketch { sketch: s, .. },
            KindModel::ConstraintSketch { sketch: t, .. },
        ) => {
            lemma_same_sketch(s, t);
        },
        (
            KindModel::Sweep { path: PathModel::Planar { sketch: s, .. }, .. },
            KindModel::Sweep { path: PathModel::Planar { sketch: t, .. }, .. },
        ) => {
            lemma_same_sketch(s, t);
        },
        (KindModel::Fillet { edges: s, .. }, KindModel::Fillet { edges: t, .. }) => {
            assert forall|i: int| 0 <= i < s.len() implies #[trigger] s[i] == t[i] by {
                assert(s[i].equals(t[i]));
                assert(t[i].point.unsigned_zero());
            }
            assert(s =~= t);
        },
        _ => {},
    }
}

impl DVec3 {
    /// All components are numbers.
    pub open spec fn all_numbers(self) -> bool {
        !self.x.nan() && !self.y.nan() && !self.z.nan()
    }
}

/// Both coordinates are numbers.
pub open spec fn place_of_numbers(p: [Scalar; 2]) -> bool {
    !p[0].nan() && !p[1].nan()
}

impl SketchPlane {
    /// The frame is all numbers.
    pub open spec fn all_numbers(self) -> bool {
        match self {
            SketchPlane::Custom { origin, x_dir, y_dir } => origin.all_numbers()
                && x_dir.all_numbers() && y_dir.all_numbers(),
            _ => true,
        }
    }
}

impl SketchModel {
    /// Every place, radius, dimension and handle is a number.
    pub open spec fn all_numbers(self) -> bool {
        &&& forall|i: int|
            0 <= i < self.points.len() ==> !(#[trigger] self.points[i]).x.nan()
                && !self.points[i].y.nan()
        &&& forall|i: int|
            0 <= i < self.circles.len() ==> !(#[trigger] self.circles[i]).radius.nan()
        &&& forall|i: int|
            0 <= i < self.constraints.len() ==> match #[trigger] self.constraints[i] {
                Constraint::Distance(_, _, v) => !v.nan(),
                Constraint::Radius(_, v) => !v.nan(),
                _ => true,
            }
        &&& forall|i: int|
            0 <= i < self.beziers.len() ==> place_of_numbers((#[trigger] self.beziers[i]).c1)
                && place_of_numbers(self.beziers[i].c2)
    }
}

impl KindModel {
    /// Every parameter is a number.
    pub open spec fn all_numbers(self) -> bool {
        match self {
            KindModel::Box { size } => size.all_numbers(),
            KindModel::Cylinder { radius, height } => !radius.nan() && !height.nan(),
            KindModel::Sphere { radius } => !radius.nan(),
            KindModel::Sketch { plane, profile } => plane.all_numbers() && match profile {
                Profile::Rectangle { width, height } => !width.nan() && !height.nan(),
                Profile::Circle { radius } => !radius.nan(),
            },
            KindModel::ConstraintSketch { plane, sketch } => plane.all_numbers()
                && sketch.all_numbers(),
            KindModel::Extrude { distance, .. } => !distance.nan(),
            KindModel::Translate { offset, .. } => offset.all_numbers(),
            KindModel::Boolean { .. } => true,
            KindModel::FilletAll { radius, .. } => !radius.nan(),
            KindModel::Fillet { edges, radius, .. } => !radius.nan() && forall|i: int|
                0 <= i < edges.len() ==> (#[trigger] edges[i]).point.all_numbers(),
            KindModel::PushPull { anchor, distance, .. } => anchor.point.all_numbers()
                && anchor.normal.all_numbers() && !distance.nan(),
            KindModel::Rotate { axis, angle, center, .. } => axis.all_numbers() && !angle.nan()
                && center.all_numbers(),
            KindModel::Scale { factors, anchor, .. } => factors.all_numbers()
                && anchor.all_numbers(),
            KindModel::Revolve { axis, angle, .. } => axis.point.all_numbers() && !angle.nan(),
            KindModel::Mirror { origin, normal, .. } => origin.all_numbers()
                && normal.all_numbers(),
            KindModel::Group { .. } => true,
            KindModel::Sweep { path: PathModel::Planar { plane, sketch }, .. }
                => plane.all_numbers() && sketch.all_numbers(),
        }
    }
}

/// An operation is equal to itself exactly if all its parameters are numbers.
pub proof fn law_an_operation_is_equal_to_itself(kind: KindModel)
    ensures
        kind.equals(kind) == kind.all_numbers(),
{
    match kind {
        KindModel::ConstraintSketch { sketch, .. } => lemma_sketch_equals_itself(sketch),
        KindModel::Sweep { path: PathModel::Planar { sketch, .. }, .. }
            => lemma_sketch_equals_itself(sketch),
        KindModel::Fillet { edges, .. } => {
            assert(crate::features::same_anchors(edges, edges) == (forall|i: int|
                0 <= i < edges.len() ==> (#[trigger] edges[i]).point.all_numbers())) by {
                if crate::features::same_anchors(edges, edges) {
                    assert forall|i: int| 0 <= i < edges.len() implies (
                    #[trigger] edges[i]).point.all_numbers() by {
                        assert(edges[i].equals(edges[i]));
                    }
                }
            }
        },
        _ => {},
    }
}

proof fn lemma_sketch_equals_itself(s: SketchModel)
    ensures
        s.equals(s) == s.all_numbers(),
{
    if s.equals(s) {
        assert forall|i: int| 0 <= i < s.points.len() implies !(#[trigger] s.points[i]).x.nan()
            && !s.points[i].y.nan() by {
            assert(s.points[i].equals(s.points[i]));
        }
        assert forall|i: int| 0 <= i < s.circles.len() implies !(
        #[trigger] s.circles[i]).radius.nan() by {
            assert(s.circles[i].equals(s.circles[i]));
        }
        assert forall|i: int| 0 <= i < s.constraints.len() implies match #[trigger] s.constraints[i] {
            Constraint::Distance(_, _, v) => !v.nan(),
            Constraint::Radius(_, v) => !v.nan(),
            _ => true,
        } by {
            assert(s.constraints[i].equals(s.constraints[i]));
        }
        assert forall|i: int| 0 <= i < s.beziers.len() implies place_of_numbers(
            (#[trigger] s.beziers[i]).c1,
        ) && place_of_numbers(s.beziers[i].c2) by {
            assert(s.beziers[i].equals(s.beziers[i]));
        }
    }
}

} // verus!
