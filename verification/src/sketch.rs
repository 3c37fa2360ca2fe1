//! Planar sketches: the profiles that become solids.
//!
//! The simple form is a closed [`Profile`] on a [`SketchPlane`]. The richer form
//! is a [`Sketch2d`]: points, lines, circles and cubic beziers, with constraints
//! relating them. Its segments are walked from end to end to find the closed
//! boundary a face is built from.

use crate::scalar::{DVec3, Scalar};
use vstd::prelude::*;
use vstd::std_specs::cmp::PartialEqSpecImpl;

verus! {

/// The plane a sketch lives on: one of the world's base planes, or the frame of
/// a selected face.
#[derive(Clone, Copy, Debug)]
pub enum SketchPlane {
    /// The X-Y plane, normal +Z.
    Xy,
    /// The X-Z plane, normal -Y.
    Xz,
    /// The Y-Z plane, normal +X.
    Yz,
    /// An arbitrary plane: an origin and two in-plane axes.
    Custom { origin: DVec3, x_dir: DVec3, y_dir: DVec3 },
}

impl SketchPlane {
    /// The same base plane, or custom frames whose numbers are equal.
    pub open spec fn equals(self, other: SketchPlane) -> bool {
        match (self, other) {
            (SketchPlane::Xy, SketchPlane::Xy) => true,
            (SketchPlane::Xz, SketchPlane::Xz) => true,
            (SketchPlane::Yz, SketchPlane::Yz) => true,
            (
                SketchPlane::Custom { origin: o1, x_dir: x1, y_dir: y1 },
                SketchPlane::Custom { origin: o2, x_dir: x2, y_dir: y2 },
            ) => o1.equals(o2) && x1.equals(x2) && y1.equals(y2),
            _ => false,
        }
    }

    /// A custom plane from a face's frame.
    pub fn from_frame(origin: DVec3, x_dir: DVec3, y_dir: DVec3) -> (r: SketchPlane)
        ensures
            r == (SketchPlane::Custom { origin, x_dir, y_dir }),
    {
        SketchPlane::Custom { origin, x_dir, y_dir }
    }

    /// Where the frame begins, which way is right and which way is up: a base plane has
    /// the world's origin and the two axes it is named after, in their order.
    pub open spec fn frame(self) -> (DVec3, DVec3, DVec3) {
        match self {
            SketchPlane::Custom { origin, x_dir, y_dir } => (origin, x_dir, y_dir),
            SketchPlane::Xy => (
                crate::scalar::zero_vector(),
                crate::scalar::unit_x(),
                crate::scalar::unit_y(),
            ),
            SketchPlane::Xz => (
                crate::scalar::zero_vector(),
                crate::scalar::unit_x(),
                crate::scalar::unit_z(),
            ),
            SketchPlane::Yz => (
                crate::scalar::zero_vector(),
                crate::scalar::unit_y(),
                crate::scalar::unit_z(),
            ),
        }
    }

    /// The origin of the sketch's frame.
    pub fn origin(self) -> (r: DVec3)
        ensures
            r == match self {
                SketchPlane::Custom { origin, .. } => origin,
                _ => crate::scalar::zero_vector(),
            },
            r == self.frame().0,
    {
        match self {
            SketchPlane::Custom { origin, .. } => origin,
            _ => DVec3::splat(Scalar::zero()),
        }
    }

    /// The in-plane axis to the right (local +x).
    pub fn x_dir(self) -> (r: DVec3)
        ensures
            r == match self {
                SketchPlane::Xy => crate::scalar::unit_x(),
                SketchPlane::Xz => crate::scalar::unit_x(),
                SketchPlane::Yz => crate::scalar::unit_y(),
                SketchPlane::Custom { x_dir, .. } => x_dir,
            },
            r == self.frame().1,
    {
        match self {
            SketchPlane::Xy => DVec3::new(Scalar::one(), Scalar::zero(), Scalar::zero()),
            SketchPlane::Xz => DVec3::new(Scalar::one(), Scalar::zero(), Scalar::zero()),
            SketchPlane::Yz => DVec3::new(Scalar::zero(), Scalar::one(), Scalar::zero()),
            SketchPlane::Custom { x_dir, .. } => x_dir,
        }
    }

    /// The in-plane axis upward (local +y).
    pub fn y_dir(self) -> (r: DVec3)
        ensures
            r == match self {
                SketchPlane::Xy => crate::scalar::unit_y(),
                SketchPlane::Xz => crate::scalar::unit_z(),
                SketchPlane::Yz => crate::scalar::unit_z(),
                SketchPlane::Custom { y_dir, .. } => y_dir,
            },
            r == self.frame().2,
    {
        match self {
            SketchPlane::Xy => DVec3::new(Scalar::zero(), Scalar::one(), Scalar::zero()),
            SketchPlane::Xz => DVec3::new(Scalar::zero(), Scalar::zero(), Scalar::one()),
            SketchPlane::Yz => DVec3::new(Scalar::zero(), Scalar::zero(), Scalar::one()),
            SketchPlane::Custom { y_dir, .. } => y_dir,
        }
    }

    /// A short label for display.
    pub fn label(self) -> (r: &'static str)
        ensures
            r@ == match self {
                SketchPlane::Xy => "XY"@,
                SketchPlane::Xz => "XZ"@,
                SketchPlane::Yz => "YZ"@,
                SketchPlane::Custom { .. } => "Face"@,
            },
    {
        match self {
            SketchPlane::Xy => "XY",
            SketchPlane::Xz => "XZ",
            SketchPlane::Yz => "YZ",
            SketchPlane::Custom { .. } => "Face",
        }
    }
}

impl PartialEq for SketchPlane {
    fn eq(&self, other: &SketchPlane) -> (r: bool) {
        match (self, other) {
            (SketchPlane::Xy, SketchPlane::Xy) => true,
            (SketchPlane::Xz, SketchPlane::Xz) => true,
            (SketchPlane::Yz, SketchPlane::Yz) => true,
            (
                SketchPlane::Custom { origin: o1, x_dir: x1, y_dir: y1 },
                SketchPlane::Custom { origin: o2, x_dir: x2, y_dir: y2 },
            ) => *o1 == *o2 && *x1 == *x2 && *y1 == *y2,
            _ => false,
        }
    }
}

impl PartialEqSpecImpl for SketchPlane {
    open spec fn obeys_eq_spec() -> bool {
        true
    }

    open spec fn eq_spec(&self, other: &SketchPlane) -> bool {
        self.equals(*other)
    }
}

/// A closed profile centred on the sketch's origin.
#[derive(Clone, Copy, Debug)]
pub enum Profile {
    /// An axis-aligned rectangle.
    Rectangle { width: Scalar, height: Scalar },
    /// A circle.
    Circle { radius: Scalar },
}

impl Profile {
    /// The same shape with equal measures.
    pub open spec fn equals(self, other: Profile) -> bool {
        match (self, other) {
            (Profile::Rectangle { width: w1, height: h1 }, Profile::Rectangle { width: w2, height: h2 })
                => w1.equals(w2) && h1.equals(h2),
            (Profile::Circle { radius: r1 }, Profile::Circle { radius: r2 }) => r1.equals(r2),
            _ => false,
        }
    }

    /// A label for the shape.
    pub fn kind_name(self) -> (r: &'static str)
        ensures
            r@ == match self {
                Profile::Rectangle { .. } => "Rectangle"@,
                Profile::Circle { .. } => "Circle"@,
            },
    {
        match self {
            Profile::Rectangle { .. } => "Rectangle",
            Profile::Circle { .. } => "Circle",
        }
    }
}

impl PartialEq for Profile {
    fn eq(&self, other: &Profile) -> (r: bool) {
        match (self, other) {
            (Profile::Rectangle { width: w1, height: h1 }, Profile::Rectangle { width: w2, height: h2 })
                => *w1 == *w2 && *h1 == *h2,
            (Profile::Circle { radius: r1 }, Profile::Circle { radius: r2 }) => *r1 == *r2,
            _ => false,
        }
    }
}

impl PartialEqSpecImpl for Profile {
    open spec fn obeys_eq_spec() -> bool {
        true
    }

    open spec fn eq_spec(&self, other: &Profile) -> bool {
        self.equals(*other)
    }
}

/// Index of a point in [`Sketch2d::points`].
#[derive(Clone, Copy, Eq, Hash, Debug)]
pub struct PointId(pub usize);

impl PartialEq for PointId {
    fn eq(&self, other: &PointId) -> (r: bool) {
        self.0 == other.0
    }
}

impl PartialEqSpecImpl for PointId {
    open spec fn obeys_eq_spec() -> bool {
        true
    }

    open spec fn eq_spec(&self, other: &PointId) -> bool {
        *self == *other
    }
}

/// Index of a line in [`Sketch2d::lines`].
#[derive(Clone, Copy, Eq, Hash, Debug)]
pub struct LineId(pub usize);

impl PartialEq for LineId {
    fn eq(&self, other: &LineId) -> (r: bool) {
        self.0 == other.0
    }
}

impl PartialEqSpecImpl for LineId {
    open spec fn obeys_eq_spec() -> bool {
        true
    }

    open spec fn eq_spec(&self, other: &LineId) -> bool {
        *self == *other
    }
}

/// Index of a circle in [`Sketch2d::circles`].
#[derive(Clone, Copy, PartialEq, Eq, Hash, Debug, Structural)]
pub struct CircleId(pub usize);

/// A sketch point, in the plane's coordinates.
#[derive(Clone, Copy, Debug)]
pub struct SketchPoint {
    pub x: Scalar,
    pub y: Scalar,
}

impl SketchPoint {
    pub open spec fn equals(self, other: SketchPoint) -> bool {
        self.x.equals(other.x) && self.y.equals(other.y)
    }
}

impl PartialEq for SketchPoint {
    fn eq(&self, other: &SketchPoint) -> (r: bool) {
        self.x == other.x && self.y == other.y
    }
}

impl PartialEqSpecImpl for SketchPoint {
    open spec fn obeys_eq_spec() -> bool {
        true
    }

    open spec fn eq_spec(&self, other: &SketchPoint) -> bool {
        self.equals(*other)
    }
}

/// A straight segment between two points.
#[derive(Clone, Copy, Eq, Debug)]
pub struct SketchLine {
    pub a: PointId,
    pub b: PointId,
}

impl PartialEq for SketchLine {
    fn eq(&self, other: &SketchLine) -> (r: bool) {
        self.a == other.a && self.b == other.b
    }
}

impl PartialEqSpecImpl for SketchLine {
    open spec fn obeys_eq_spec() -> bool {
        true
    }

    open spec fn eq_spec(&self, other: &SketchLine) -> bool {
        *self == *other
    }
}

/// A circle about a centre point.
#[derive(Clone, Copy, Debug)]
pub struct SketchCircle {
    pub center: PointId,
    pub radius: Scalar,
}

impl SketchCircle {
    pub open spec fn equals(self, other: SketchCircle) -> bool {
        self.center == other.center && self.radius.equals(other.radius)
    }
}

impl PartialEq for SketchCircle {
    fn eq(&self, other: &SketchCircle) -> (r: bool) {
        self.center == other.center && self.radius == other.radius
    }
}

impl PartialEqSpecImpl for SketchCircle {
    open spec fn obeys_eq_spec() -> bool {
        true
    }

    open spec fn eq_spec(&self, other: &SketchCircle) -> bool {
        self.equals(*other)
    }
}

/// Both coordinates are equal numbers.
pub open spec fn same_place(a: [Scalar; 2], b: [Scalar; 2]) -> bool {
    a[0].equals(b[0]) && a[1].equals(b[1])
}

fn in_same_place(a: [Scalar; 2], b: [Scalar; 2]) -> (r: bool)
    ensures
        r == same_place(a, b),
{
    a[0] == b[0] && a[1] == b[1]
}

/// A cubic bezier between two points, with a control handle `c1` near `a` and
/// `c2` near `b`.
#[derive(Clone, Copy, Debug)]
pub struct SketchBezier {
    pub a: PointId,
    pub b: PointId,
    pub c1: [Scalar; 2],
    pub c2: [Scalar; 2],
}

impl SketchBezier {
    pub open spec fn equals(self, other: SketchBezier) -> bool {
        self.a == other.a && self.b == other.b && same_place(self.c1, other.c1) && same_place(
            self.c2,
            other.c2,
        )
    }
}

impl PartialEq for SketchBezier {
    fn eq(&self, other: &SketchBezier) -> (r: bool) {
        self.a == other.a && self.b == other.b && in_same_place(self.c1, other.c1)
            && in_same_place(self.c2, other.c2)
    }
}

impl PartialEqSpecImpl for SketchBezier {
    open spec fn obeys_eq_spec() -> bool {
        true
    }

    open spec fn eq_spec(&self, other: &SketchBezier) -> bool {
        self.equals(*other)
    }
}

/// One segment of a profile's boundary, in plane coordinates. Consecutive
/// segments share endpoints.
#[derive(Clone, Copy, Debug)]
pub enum ProfileElem {
    Line { a: [Scalar; 2], b: [Scalar; 2] },
    Bezier { a: [Scalar; 2], c1: [Scalar; 2], c2: [Scalar; 2], b: [Scalar; 2] },
}

impl ProfileElem {
    /// Where the segment begins.
    pub open spec fn first(self) -> [Scalar; 2] {
        match self {
            ProfileElem::Line { a, .. } => a,
            ProfileElem::Bezier { a, .. } => a,
        }
    }

    /// Where the segment ends.
    pub open spec fn last(self) -> [Scalar; 2] {
        match self {
            ProfileElem::Line { b, .. } => b,
            ProfileElem::Bezier { b, .. } => b,
        }
    }

    pub open spec fn equals(self, other: ProfileElem) -> bool {
        match (self, other) {
            (ProfileElem::Line { a: a1, b: b1 }, ProfileElem::Line { a: a2, b: b2 }) => same_place(
                a1,
                a2,
            ) && same_place(b1, b2),
            (
                ProfileElem::Bezier { a: a1, c1: c11, c2: c21, b: b1 },
                ProfileElem::Bezier { a: a2, c1: c12, c2: c22, b: b2 },
            ) => same_place(a1, a2) && same_place(c11, c12) && same_place(c21, c22) && same_place(b1, b2),
            _ => false,
        }
    }

    /// Where the segment begins: the previous segment's end.
    pub fn start(self) -> (r: [Scalar; 2])
        ensures
            r == self.first(),
    {
        match self {
            ProfileElem::Line { a, .. } => a,
            ProfileElem::Bezier { a, .. } => a,
        }
    }
}

impl PartialEq for ProfileElem {
    fn eq(&self, other: &ProfileElem) -> (r: bool) {
        match (self, other) {
            (ProfileElem::Line { a: a1, b: b1 }, ProfileElem::Line { a: a2, b: b2 })
                => in_same_place(*a1, *a2) && in_same_place(*b1, *b2),
            (
                ProfileElem::Bezier { a: a1, c1: c11, c2: c21, b: b1 },
                ProfileElem::Bezier { a: a2, c1: c12, c2: c22, b: b2 },
            ) => in_same_place(*a1, *a2) && in_same_place(*c11, *c12) && in_same_place(*c21, *c22)
                && in_same_place(*b1, *b2),
            _ => false,
        }
    }
}

impl PartialEqSpecImpl for ProfileElem {
    open spec fn obeys_eq_spec() -> bool {
        true
    }

    open spec fn eq_spec(&self, other: &ProfileElem) -> bool {
        self.equals(*other)
    }
}

/// A geometric or dimensional constraint between sketch entities.
#[derive(Clone, Copy, Debug)]
pub enum Constraint {
    /// A point stays where it is.
    Fixed(PointId),
    /// Two points share a position.
    Coincident(PointId, PointId),
    /// A line's endpoints share `y`.
    Horizontal(LineId),
    /// A line's endpoints share `x`.
    Vertical(LineId),
    /// Two points are the given distance apart.
    Distance(PointId, PointId, Scalar),
    /// Two lines are parallel.
    Parallel(LineId, LineId),
    /// Two lines are perpendicular.
    Perpendicular(LineId, LineId),
    /// Two lines are equally long.
    EqualLength(LineId, LineId),
    /// A circle has the given radius.
    Radius(CircleId, Scalar),
}

impl Constraint {
    pub open spec fn equals(self, other: Constraint) -> bool {
        match (self, other) {
            (Constraint::Fixed(p), Constraint::Fixed(q)) => p == q,
            (Constraint::Coincident(p1, p2), Constraint::Coincident(q1, q2)) => p1 == q1 && p2 == q2,
            (Constraint::Horizontal(p), Constraint::Horizontal(q)) => p == q,
            (Constraint::Vertical(p), Constraint::Vertical(q)) => p == q,
            (Constraint::Distance(p1, p2, v), Constraint::Distance(q1, q2, w)) => p1 == q1 && p2 == q2
                && v.equals(w),
            (Constraint::Parallel(p1, p2), Constraint::Parallel(q1, q2)) => p1 == q1 && p2 == q2,
            (Constraint::Perpendicular(p1, p2), Constraint::Perpendicular(q1, q2)) => p1 == q1 && p2
                == q2,
            (Constraint::EqualLength(p1, p2), Constraint::EqualLength(q1, q2)) => p1 == q1 && p2
                == q2,
            (Constraint::Radius(p, v), Constraint::Radius(q, w)) => p == q && v.equals(w),
            _ => false,
        }
    }
}

impl PartialEq for Constraint {
    fn eq(&self, other: &Constraint) -> (r: bool) {
        match (self, other) {
            (Constraint::Fixed(p), Constraint::Fixed(q)) => *p == *q,
            (Constraint::Coincident(p1, p2), Constraint::Coincident(q1, q2)) => *p1 == *q1 && *p2 == *q2,
            (Constraint::Horizontal(p), Constraint::Horizontal(q)) => *p == *q,
            (Constraint::Vertical(p), Constraint::Vertical(q)) => *p == *q,
            (Constraint::Distance(p1, p2, v), Constraint::Distance(q1, q2, w)) => *p1 == *q1 && *p2
                == *q2 && *v == *w,
            (Constraint::Parallel(p1, p2), Constraint::Parallel(q1, q2)) => *p1 == *q1 && *p2 == *q2,
            (Constraint::Perpendicular(p1, p2), Constraint::Perpendicular(q1, q2)) => *p1 == *q1
                && *p2 == *q2,
            (Constraint::EqualLength(p1, p2), Constraint::EqualLength(q1, q2)) => *p1 == *q1 && *p2
                == *q2,
            (Constraint::Radius(p, v), Constraint::Radius(q, w)) => *p == *q && *v == *w,
            _ => false,
        }
    }
}

impl PartialEqSpecImpl for Constraint {
    open spec fn obeys_eq_spec() -> bool {
        true
    }

    open spec fn eq_spec(&self, other: &Constraint) -> bool {
        self.equals(*other)
    }
}

} // verus!
