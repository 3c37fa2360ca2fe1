//! Features as data.
//!
//! A feature describes one modelling operation and never holds the geometry it
//! produces; [`crate::regen`] turns a list of them into bodies. A feature refers
//! to others by [`FeatureId`], meaning the body that feature produces.

use crate::scalar::{DVec3, Scalar};
use crate::sketch::{Profile, SketchPlane};
use crate::sketch2d::{Sketch2d, SketchModel};
use vstd::prelude::*;
use vstd::std_specs::cmp::PartialEqSpecImpl;

verus! {

/// A feature's identity, independent of its place in the history.
#[derive(Clone, Copy, PartialEq, Eq, PartialOrd, Ord, Hash, Debug, Structural)]
pub struct FeatureId(pub u64);

/// A planar face, found again on each rebuild by a point on its plane and the
/// plane's normal.
#[derive(Clone, Copy, Debug)]
pub struct FaceAnchor {
    pub point: DVec3,
    pub normal: DVec3,
}

impl FaceAnchor {
    pub open spec fn equals(self, other: FaceAnchor) -> bool {
        self.point.equals(other.point) && self.normal.equals(other.normal)
    }
}

impl PartialEq for FaceAnchor {
    fn eq(&self, other: &FaceAnchor) -> (r: bool) {
        self.point == other.point && self.normal == other.normal
    }
}

impl PartialEqSpecImpl for FaceAnchor {
    open spec fn obeys_eq_spec() -> bool {
        true
    }

    open spec fn eq_spec(&self, other: &FaceAnchor) -> bool {
        self.equals(*other)
    }
}

/// An edge, found again on each rebuild as the one nearest to a point.
#[derive(Clone, Copy, Debug)]
pub struct EdgeAnchor {
    pub point: DVec3,
}

impl EdgeAnchor {
    pub open spec fn equals(self, other: EdgeAnchor) -> bool {
        self.point.equals(other.point)
    }
}

impl PartialEq for EdgeAnchor {
    fn eq(&self, other: &EdgeAnchor) -> (r: bool) {
        self.point == other.point
    }
}

impl PartialEqSpecImpl for EdgeAnchor {
    open spec fn obeys_eq_spec() -> bool {
        true
    }

    open spec fn eq_spec(&self, other: &EdgeAnchor) -> bool {
        self.equals(*other)
    }
}

/// How two bodies combine.
#[derive(Clone, Copy, PartialEq, Eq, Debug, Structural)]
pub enum BooleanOp {
    /// Merge the two.
    Union,
    /// Remove the tool from the target.
    Subtract,
    /// Keep only what they share.
    Intersect,
}

/// The path of a sweep.
#[derive(Debug)]
pub enum SweepPath {
    /// An open chain drawn on a plane.
    Planar { plane: SketchPlane, sketch: Sketch2d },
}

/// What a sweep path holds.
pub enum PathModel {
    Planar { plane: SketchPlane, sketch: SketchModel },
}

impl View for SweepPath {
    type V = PathModel;

    open spec fn view(&self) -> PathModel {
        match self {
            SweepPath::Planar { plane, sketch } => PathModel::Planar { plane: *plane, sketch: sketch@ },
        }
    }
}

impl PathModel {
    pub open spec fn equals(self, other: PathModel) -> bool {
        match (self, other) {
            (
                PathModel::Planar { plane: p1, sketch: s1 },
                PathModel::Planar { plane: p2, sketch: s2 },
            ) => p1.equals(p2) && s1.equals(s2),
        }
    }
}

impl Clone for SweepPath {
    fn clone(&self) -> (r: SweepPath)
        ensures
            r@ == self@,
    {
        match self {
            SweepPath::Planar { plane, sketch } => SweepPath::Planar {
                plane: *plane,
                sketch: sketch.clone(),
            },
        }
    }
}

impl PartialEq for SweepPath {
    fn eq(&self, other: &SweepPath) -> (r: bool) {
        match (self, other) {
            (
                SweepPath::Planar { plane: p1, sketch: s1 },
                SweepPath::Planar { plane: p2, sketch: s2 },
            ) => *p1 == *p2 && *s1 == *s2,
        }
    }
}

impl PartialEqSpecImpl for SweepPath {
    open spec fn obeys_eq_spec() -> bool {
        true
    }

    open spec fn eq_spec(&self, other: &SweepPath) -> bool {
        self@.equals(other@)
    }
}

/// The operation a feature performs, with its parameters and the features it
/// consumes. Lengths are in millimetres.
#[derive(Debug)]
#[allow(inconsistent_fields)]
pub enum FeatureKind {
    /// An axis-aligned box from the origin to `size`.
    Box { size: DVec3 },
    /// A cylinder along +Z from the origin.
    Cylinder { radius: Scalar, height: Scalar },
    /// A sphere about the origin.
    Sphere { radius: Scalar },
    /// A closed profile on a plane: a planar face.
    Sketch { plane: SketchPlane, profile: Profile },
    /// A constraint sketch on a plane, its coordinates already solved: a planar face
    /// bounded by the sketch's closed loop.
    ConstraintSketch { plane: SketchPlane, sketch: Sketch2d },
    /// Extrude a sketch perpendicular to its plane.
    Extrude { source: FeatureId, distance: Scalar },
    /// Translate a body.
    Translate { source: FeatureId, offset: DVec3 },
    /// Combine two bodies.
    Boolean { op: BooleanOp, target: FeatureId, tool: FeatureId },
    /// Fillet every edge of a body.
    FilletAll { source: FeatureId, radius: Scalar },
    /// Fillet the anchored edges of a body.
    Fillet { source: FeatureId, edges: Vec<EdgeAnchor>, radius: Scalar },
    /// Push or pull the anchored face of a body along its normal; a positive
    /// distance adds material.
    PushPull { source: FeatureId, anchor: FaceAnchor, distance: Scalar },
    /// Rotate a body by `angle` radians about the line through `center` along
    /// `axis`.
    Rotate { source: FeatureId, axis: DVec3, angle: Scalar, center: DVec3 },
    /// Scale a body per axis about the fixed point `anchor`.
    Scale { source: FeatureId, factors: DVec3, anchor: DVec3 },
    /// Revolve a profile by `angle` radians about the anchored straight edge.
    Revolve { source: FeatureId, axis: EdgeAnchor, angle: Scalar },
    /// Reflect a body across the plane through `origin` with unit `normal`.
    Mirror { source: FeatureId, origin: DVec3, normal: DVec3 },
    /// Bundle bodies into one that moves as a unit and keeps each member distinct.
    Group { members: Vec<FeatureId> },
    /// Sweep a planar profile along an open path, keeping it normal to the path.
    Sweep { profile: FeatureId, path: SweepPath },
}

/// What a [`FeatureKind`] says.
#[allow(inconsistent_fields)]
pub enum KindModel {
    Box { size: DVec3 },
    Cylinder { radius: Scalar, height: Scalar },
    Sphere { radius: Scalar },
    Sketch { plane: SketchPlane, profile: Profile },
    ConstraintSketch { plane: SketchPlane, sketch: SketchModel },
    Extrude { source: FeatureId, distance: Scalar },
    Translate { source: FeatureId, offset: DVec3 },
    Boolean { op: BooleanOp, target: FeatureId, tool: FeatureId },
    FilletAll { source: FeatureId, radius: Scalar },
    Fillet { source: FeatureId, edges: Seq<EdgeAnchor>, radius: Scalar },
    PushPull { source: FeatureId, anchor: FaceAnchor, distance: Scalar },
    Rotate { source: FeatureId, axis: DVec3, angle: Scalar, center: DVec3 },
    Scale { source: FeatureId, factors: DVec3, anchor: DVec3 },
    Revolve { source: FeatureId, axis: EdgeAnchor, angle: Scalar },
    Mirror { source: FeatureId, origin: DVec3, normal: DVec3 },
    Group { members: Seq<FeatureId> },
    Sweep { profile: FeatureId, path: PathModel },
}

impl View for FeatureKind {
    type V = KindModel;

    open spec fn view(&self) -> KindModel {
        match self {
            FeatureKind::Box { size } => KindModel::Box { size: *size },
            FeatureKind::Cylinder { radius, height } => KindModel::Cylinder { radius: *radius, height: *height },
            FeatureKind::Sphere { radius } => KindModel::Sphere { radius: *radius },
            FeatureKind::Sketch { plane, profile } => KindModel::Sketch { plane: *plane, profile: *profile },
            FeatureKind::ConstraintSketch { plane, sketch } => KindModel::ConstraintSketch { plane: *plane, sketch: sketch@ },
            FeatureKind::Extrude { source, distance } => KindModel::Extrude { source: *source, distance: *distance },
            FeatureKind::Translate { source, offset } => KindModel::Translate { source: *source, offset: *offset },
            FeatureKind::Boolean { op, target, tool } => KindModel::Boolean { op: *op, target: *target, tool: *tool },
            FeatureKind::FilletAll { source, radius } => KindModel::FilletAll { source: *source, radius: *radius },
            FeatureKind::Fillet { source, edges, radius } => KindModel::Fillet { source: *source, edges: edges@, radius: *radius },
            FeatureKind::PushPull { source, anchor, distance } => KindModel::PushPull { source: *source, anchor: *anchor, distance: *distance },
            FeatureKind::Rotate { source, axis, angle, center } => KindModel::Rotate { source: *source, axis: *axis, angle: *angle, center: *center },
            FeatureKind::Scale { source, factors, anchor } => KindModel::Scale { source: *source, factors: *factors, anchor: *anchor },
            FeatureKind::Revolve { source, axis, angle } => KindModel::Revolve { source: *source, axis: *axis, angle: *angle },
            FeatureKind::Mirror { source, origin, normal } => KindModel::Mirror { source: *source, origin: *origin, normal: *normal },
            FeatureKind::Group { members } => KindModel::Group { members: members@ },
            FeatureKind::Sweep { profile, path } => KindModel::Sweep { profile: *profile, path: path@ },
        }
    }
}

/// The exchange of one reference for another.
pub open spec fn swapping(from: FeatureId, to: FeatureId) -> spec_fn(FeatureId) -> FeatureId {
    |id: FeatureId|
        if id == from {
            to
        } else {
            id
        }
}

/// Anchor by anchor equality.
pub open spec fn same_anchors(a: Seq<EdgeAnchor>, b: Seq<EdgeAnchor>) -> bool {
    &&& a.len() == b.len()
    &&& forall|i: int| 0 <= i < a.len() ==> (#[trigger] a[i]).equals(b[i])
}

impl KindModel {
    /// The features this operation consumes, in order.
    pub open spec fn inputs(self) -> Seq<FeatureId> {
        match self {
            KindModel::Extrude { source, .. } => seq![source],
            KindModel::Translate { source, .. } => seq![source],
            KindModel::Boolean { target, tool, .. } => seq![target, tool],
            KindModel::FilletAll { source, .. } => seq![source],
            KindModel::Fillet { source, .. } => seq![source],
            KindModel::PushPull { source, .. } => seq![source],
            KindModel::Rotate { source, .. } => seq![source],
            KindModel::Scale { source, .. } => seq![source],
            KindModel::Revolve { source, .. } => seq![source],
            KindModel::Mirror { source, .. } => seq![source],
            KindModel::Group { members } => members,
            KindModel::Sweep { profile, .. } => seq![profile],
            _ => seq![],
        }
    }

    /// The input a dependent is rewired to when this feature is deleted: the
    /// first of its inputs, if it has any.
    pub open spec fn primary_input(self) -> Option<FeatureId> {
        if self.inputs().len() > 0 {
            Some(self.inputs()[0])
        } else {
            None
        }
    }

    /// The operation with every reference replaced by what `f` makes of it.
    pub open spec fn rewired(self, f: spec_fn(FeatureId) -> FeatureId) -> KindModel {
        match self {
            KindModel::Extrude { source, distance } => KindModel::Extrude { source: f(source), distance },
            KindModel::Translate { source, offset } => KindModel::Translate { source: f(source), offset },
            KindModel::Boolean { op, target, tool } => KindModel::Boolean { op, target: f(target), tool: f(tool) },
            KindModel::FilletAll { source, radius } => KindModel::FilletAll { source: f(source), radius },
            KindModel::Fillet { source, edges, radius } => KindModel::Fillet { source: f(source), edges, radius },
            KindModel::PushPull { source, anchor, distance } => KindModel::PushPull { source: f(source), anchor, distance },
            KindModel::Rotate { source, axis, angle, center } => KindModel::Rotate { source: f(source), axis, angle, center },
            KindModel::Scale { source, factors, anchor } => KindModel::Scale { source: f(source), factors, anchor },
            KindModel::Revolve { source, axis, angle } => KindModel::Revolve { source: f(source), axis, angle },
            KindModel::Mirror { source, origin, normal } => KindModel::Mirror { source: f(source), origin, normal },
            KindModel::Group { members } => KindModel::Group { members: members.map_values(f) },
            KindModel::Sweep { profile, path } => KindModel::Sweep { profile: f(profile), path },
            _ => self,
        }
    }

    /// The operation with references to `from` replaced by `to`.
    pub open spec fn remapped(self, from: FeatureId, to: FeatureId) -> KindModel {
        self.rewired(swapping(from, to))
    }

    /// The same operation on the same features with equal parameters.
    pub open spec fn equals(self, other: KindModel) -> bool {
        match (self, other) {
            (KindModel::Box { size: size1 }, KindModel::Box { size: size2 }) => size1.equals(size2),
            (KindModel::Cylinder { radius: radius1, height: height1 }, KindModel::Cylinder { radius: radius2, height: height2 }) => radius1.equals(radius2) && height1.equals(height2),
            (KindModel::Sphere { radius: radius1 }, KindModel::Sphere { radius: radius2 }) => radius1.equals(radius2),
            (KindModel::Sketch { plane: plane1, profile: profile1 }, KindModel::Sketch { plane: plane2, profile: profile2 }) => plane1.equals(plane2) && profile1.equals(profile2),
            (KindModel::ConstraintSketch { plane: plane1, sketch: sketch1 }, KindModel::ConstraintSketch { plane: plane2, sketch: sketch2 }) => plane1.equals(plane2) && sketch1.equals(sketch2),
            (KindModel::Extrude { source: source1, distance: distance1 }, KindModel::Extrude { source: source2, distance: distance2 }) => source1 == source2 && distance1.equals(distance2),
            (KindModel::Translate { source: source1, offset: offset1 }, KindModel::Translate { source: source2, offset: offset2 }) => source1 == source2 && offset1.equals(offset2),
            (KindModel::Boolean { op: op1, target: target1, tool: tool1 }, KindModel::Boolean { op: op2, target: target2, tool: tool2 }) => op1 == op2 && target1 == target2 && tool1 == tool2,
            (KindModel::FilletAll { source: source1, radius: radius1 }, KindModel::FilletAll { source: source2, radius: radius2 }) => source1 == source2 && radius1.equals(radius2),
            (KindModel::Fillet { source: source1, edges: edges1, radius: radius1 }, KindModel::Fillet { source: source2, edges: edges2, radius: radius2 }) => source1 == source2 && same_anchors(edges1, edges2) && radius1.equals(radius2),
            (KindModel::PushPull { source: source1, anchor: anchor1, distance: distance1 }, KindModel::PushPull { source: source2, anchor: anchor2, distance: distance2 }) => source1 == source2 && anchor1.equals(anchor2) && distance1.equals(distance2),
            (KindModel::Rotate { source: source1, axis: axis1, angle: angle1, center: center1 }, KindModel::Rotate { source: source2, axis: axis2, angle: angle2, center: center2 }) => source1 == source2 && axis1.equals(axis2) && angle1.equals(angle2) && center1.equals(center2),
            (KindModel::Scale { source: source1, factors: factors1, anchor: anchor1 }, KindModel::Scale { source: source2, factors: factors2, anchor: anchor2 }) => source1 == source2 && factors1.equals(factors2) && anchor1.equals(anchor2),
            (KindModel::Revolve { source: source1, axis: axis1, angle: angle1 }, KindModel::Revolve { source: source2, axis: axis2, angle: angle2 }) => source1 == source2 && axis1.equals(axis2) && angle1.equals(angle2),
            (KindModel::Mirror { source: source1, origin: origin1, normal: normal1 }, KindModel::Mirror { source: source2, origin: origin2, normal: normal2 }) => source1 == source2 && origin1.equals(origin2) && normal1.equals(normal2),
            (KindModel::Group { members: members1 }, KindModel::Group { members: members2 }) => members1 == members2,
            (KindModel::Sweep { profile: profile1, path: path1 }, KindModel::Sweep { profile: profile2, path: path2 }) => profile1 == profile2 && path1.equals(path2),
            _ => false,
        }
    }

    /// A short label.
    pub open spec fn label(self) -> Seq<char> {
        match self {
            KindModel::Box { .. } => "Box"@,
            KindModel::Cylinder { .. } => "Cylinder"@,
            KindModel::Sphere { .. } => "Sphere"@,
            KindModel::Sketch { .. } => "Sketch"@,
            KindModel::ConstraintSketch { .. } => "Sketch"@,
            KindModel::Extrude { .. } => "Extrude"@,
            KindModel::Translate { .. } => "Translate"@,
            KindModel::Boolean { .. } => "Boolean"@,
            KindModel::FilletAll { .. } => "Fillet"@,
            KindModel::Fillet { .. } => "Fillet"@,
            KindModel::PushPull { .. } => "Push/Pull"@,
            KindModel::Rotate { .. } => "Rotate"@,
            KindModel::Scale { .. } => "Scale"@,
            KindModel::Revolve { .. } => "Revolve"@,
            KindModel::Mirror { .. } => "Mirror"@,
            KindModel::Group { .. } => "Group"@,
            KindModel::Sweep { .. } => "Sweep"@,
        }
    }
}

impl Clone for FeatureKind {
    fn clone(&self) -> (r: FeatureKind)
        ensures
            r@ == self@,
    {
        match self {
            FeatureKind::Box { size } => FeatureKind::Box { size: *size },
            FeatureKind::Cylinder { radius, height } => FeatureKind::Cylinder { radius: *radius, height: *height },
            FeatureKind::Sphere { radius } => FeatureKind::Sphere { radius: *radius },
            FeatureKind::Sketch { plane, profile } => FeatureKind::Sketch { plane: *plane, profile: *profile },
            FeatureKind::ConstraintSketch { plane, sketch } => FeatureKind::ConstraintSketch { plane: *plane, sketch: sketch.clone() },
            FeatureKind::Extrude { source, distance } => FeatureKind::Extrude { source: *source, distance: *distance },
            FeatureKind::Translate { source, offset } => FeatureKind::Translate { source: *source, offset: *offset },
            FeatureKind::Boolean { op, target, tool } => FeatureKind::Boolean { op: *op, target: *target, tool: *tool },
            FeatureKind::FilletAll { source, radius } => FeatureKind::FilletAll { source: *source, radius: *radius },
            FeatureKind::Fillet { source, edges, radius } => FeatureKind::Fillet { source: *source, edges: crate::sketch2d::copied(edges), radius: *radius },
            FeatureKind::PushPull { source, anchor, distance } => FeatureKind::PushPull { source: *source, anchor: *anchor, distance: *distance },
            FeatureKind::Rotate { source, axis, angle, center } => FeatureKind::Rotate { source: *source, axis: *axis, angle: *angle, center: *center },
            FeatureKind::Scale { source, factors, anchor } => FeatureKind::Scale { source: *source, factors: *factors, anchor: *anchor },
            FeatureKind::Revolve { source, axis, angle } => FeatureKind::Revolve { source: *source, axis: *axis, angle: *angle },
            FeatureKind::Mirror { source, origin, normal } => FeatureKind::Mirror { source: *source, origin: *origin, normal: *normal },
            FeatureKind::Group { members } => FeatureKind::Group { members: crate::sketch2d::copied(members) },
            FeatureKind::Sweep { profile, path } => FeatureKind::Sweep { profile: *profile, path: path.clone() },
        }
    }
}

impl PartialEq for FeatureKind {
    fn eq(&self, other: &FeatureKind) -> (r: bool) {
        match (self, other) {
            (FeatureKind::Box { size: size1 }, FeatureKind::Box { size: size2 }) => *size1 == *size2,
            (FeatureKind::Cylinder { radius: radius1, height: height1 }, FeatureKind::Cylinder { radius: radius2, height: height2 }) => *radius1 == *radius2 && *height1 == *height2,
            (FeatureKind::Sphere { radius: radius1 }, FeatureKind::Sphere { radius: radius2 }) => *radius1 == *radius2,
            (FeatureKind::Sketch { plane: plane1, profile: profile1 }, FeatureKind::Sketch { plane: plane2, profile: profile2 }) => *plane1 == *plane2 && *profile1 == *profile2,
            (FeatureKind::ConstraintSketch { plane: plane1, sketch: sketch1 }, FeatureKind::ConstraintSketch { plane: plane2, sketch: sketch2 }) => *plane1 == *plane2 && *sketch1 == *sketch2,
            (FeatureKind::Extrude { source: source1, distance: distance1 }, FeatureKind::Extrude { source: source2, distance: distance2 }) => *source1 == *source2 && *distance1 == *distance2,
            (FeatureKind::Translate { source: source1, offset: offset1 }, FeatureKind::Translate { source: source2, offset: offset2 }) => *source1 == *source2 && *offset1 == *offset2,
            (FeatureKind::Boolean { op: op1, target: target1, tool: tool1 }, FeatureKind::Boolean { op: op2, target: target2, tool: tool2 }) => *op1 == *op2 && *target1 == *target2 && *tool1 == *tool2,
            (FeatureKind::FilletAll { source: source1, radius: radius1 }, FeatureKind::FilletAll { source: source2, radius: radius2 }) => *source1 == *source2 && *radius1 == *radius2,
            (FeatureKind::Fillet { source: source1, edges: edges1, radius: radius1 }, FeatureKind::Fillet { source: source2, edges: edges2, radius: radius2 }) => *source1 == *source2 && anchors_equal(edges1, edges2) && *radius1 == *radius2,
            (FeatureKind::PushPull { source: source1, anchor: anchor1, distance: distance1 }, FeatureKind::PushPull { source: source2, anchor: anchor2, distance: distance2 }) => *source1 == *source2 && *anchor1 == *anchor2 && *distance1 == *distance2,
            (FeatureKind::Rotate { source: source1, axis: axis1, angle: angle1, center: center1 }, FeatureKind::Rotate { source: source2, axis: axis2, angle: angle2, center: center2 }) => *source1 == *source2 && *axis1 == *axis2 && *angle1 == *angle2 && *center1 == *center2,
            (FeatureKind::Scale { source: source1, factors: factors1, anchor: anchor1 }, FeatureKind::Scale { source: source2, factors: factors2, anchor: anchor2 }) => *source1 == *source2 && *factors1 == *factors2 && *anchor1 == *anchor2,
            (FeatureKind::Revolve { source: source1, axis: axis1, angle: angle1 }, FeatureKind::Revolve { source: source2, axis: axis2, angle: angle2 }) => *source1 == *source2 && *axis1 == *axis2 && *angle1 == *angle2,
            (FeatureKind::Mirror { source: source1, origin: origin1, normal: normal1 }, FeatureKind::Mirror { source: source2, origin: origin2, normal: normal2 }) => *source1 == *source2 && *origin1 == *origin2 && *normal1 == *normal2,
            (FeatureKind::Group { members: members1 }, FeatureKind::Group { members: members2 }) => same_ids(members1, members2),
            (FeatureKind::Sweep { profile: profile1, path: path1 }, FeatureKind::Sweep { profile: profile2, path: path2 }) => *profile1 == *profile2 && *path1 == *path2,
            _ => false,
        }
    }
}

impl PartialEqSpecImpl for FeatureKind {
    open spec fn obeys_eq_spec() -> bool {
        true
    }

    open spec fn eq_spec(&self, other: &FeatureKind) -> bool {
        self@.equals(other@)
    }
}

pub(crate) fn same_ids(a: &Vec<FeatureId>, b: &Vec<FeatureId>) -> (r: bool)
    ensures
        r == (a@ == b@),
{
    if a.len() != b.len() {
        return false;
    }
    let mut i: usize = 0;
    while i < a.len()
        invariant
            i <= a@.len() == b@.len(),
            forall|j: int| 0 <= j < i ==> #[trigger] a@[j] == b@[j],
        decreases a@.len() - i,
    {
        if a[i] != b[i] {
            assert(a@[i as int] != b@[i as int]);
            return false;
        }
        i += 1;
    }
    assert(a@ =~= b@);
    true
}

fn anchors_equal(a: &Vec<EdgeAnchor>, b: &Vec<EdgeAnchor>) -> (r: bool)
    ensures
        r == same_anchors(a@, b@),
{
    if a.len() != b.len() {
        return false;
    }
    let mut i: usize = 0;
    while i < a.len()
        invariant
            i <= a@.len() == b@.len(),
            forall|j: int| 0 <= j < i ==> (#[trigger] a@[j]).equals(b@[j]),
        decreases a@.len() - i,
    {
        if a[i] != b[i] {
            assert(!a@[i as int].equals(b@[i as int]));
            return false;
        }
        i += 1;
    }
    true
}

fn swap_reference(id: &mut FeatureId, from: FeatureId, to: FeatureId)
    ensures
        *final(id) == (if *old(id) == from {
            to
        } else {
            *old(id)
        }),
{
    if *id == from {
        *id = to;
    }
}

impl FeatureKind {
    /// The features this operation consumes, in order. Primitives and sketches
    /// consume none.
    pub fn inputs(&self) -> (r: Vec<FeatureId>)
        ensures
            r@ == self@.inputs(),
    {
        match self {
            FeatureKind::Extrude { source, .. } => vec![*source],
            FeatureKind::Translate { source, .. } => vec![*source],
            FeatureKind::Boolean { target, tool, .. } => vec![*target, *tool],
            FeatureKind::FilletAll { source, .. } => vec![*source],
            FeatureKind::Fillet { source, .. } => vec![*source],
            FeatureKind::PushPull { source, .. } => vec![*source],
            FeatureKind::Rotate { source, .. } => vec![*source],
            FeatureKind::Scale { source, .. } => vec![*source],
            FeatureKind::Revolve { source, .. } => vec![*source],
            FeatureKind::Mirror { source, .. } => vec![*source],
            FeatureKind::Group { members } => crate::sketch2d::copied(members),
            FeatureKind::Sweep { profile, .. } => vec![*profile],
            _ => Vec::new(),
        }
    }

    /// The input a dependent should be rewired to if this feature is deleted:
    /// its main upstream body. Primitives and sketches have none.
    pub fn primary_input(&self) -> (r: Option<FeatureId>)
        ensures
            r == self@.primary_input(),
    {
        match self {
            FeatureKind::Extrude { source, .. } => Some(*source),
            FeatureKind::Translate { source, .. } => Some(*source),
            FeatureKind::Boolean { target, .. } => Some(*target),
            FeatureKind::FilletAll { source, .. } => Some(*source),
            FeatureKind::Fillet { source, .. } => Some(*source),
            FeatureKind::PushPull { source, .. } => Some(*source),
            FeatureKind::Rotate { source, .. } => Some(*source),
            FeatureKind::Scale { source, .. } => Some(*source),
            FeatureKind::Revolve { source, .. } => Some(*source),
            FeatureKind::Mirror { source, .. } => Some(*source),
            FeatureKind::Group { members } => {
                if members.len() > 0 {
                    Some(members[0])
                } else {
                    None
                }
            },
            FeatureKind::Sweep { profile, .. } => Some(*profile),
            _ => None,
        }
    }

    /// Replace every reference to `from` by `to`.
    pub fn remap_input(&mut self, from: FeatureId, to: FeatureId)
        ensures
            final(self)@ == old(self)@.remapped(from, to),
    {
        match self {
            FeatureKind::Extrude { source, .. } => swap_reference(source, from, to),
            FeatureKind::Translate { source, .. } => swap_reference(source, from, to),
            FeatureKind::Boolean { target, tool, .. } => {
                swap_reference(target, from, to);
                swap_reference(tool, from, to);
            },
            FeatureKind::FilletAll { source, .. } => swap_reference(source, from, to),
            FeatureKind::Fillet { source, .. } => swap_reference(source, from, to),
            FeatureKind::PushPull { source, .. } => swap_reference(source, from, to),
            FeatureKind::Rotate { source, .. } => swap_reference(source, from, to),
            FeatureKind::Scale { source, .. } => swap_reference(source, from, to),
            FeatureKind::Revolve { source, .. } => swap_reference(source, from, to),
            FeatureKind::Mirror { source, .. } => swap_reference(source, from, to),
            FeatureKind::Group { members } => swap_references(members, from, to),
            FeatureKind::Sweep { profile, .. } => swap_reference(profile, from, to),
            _ => {},
        }
    }

    /// A short label for the operation.
    pub fn kind_name(&self) -> (r: &'static str)
        ensures
            r@ == self@.label(),
    {
        match self {
            FeatureKind::Box { .. } => "Box",
            FeatureKind::Cylinder { .. } => "Cylinder",
            FeatureKind::Sphere { .. } => "Sphere",
            FeatureKind::Sketch { .. } => "Sketch",
            FeatureKind::ConstraintSketch { .. } => "Sketch",
            FeatureKind::Extrude { .. } => "Extrude",
            FeatureKind::Translate { .. } => "Translate",
            FeatureKind::Boolean { .. } => "Boolean",
            FeatureKind::FilletAll { .. } => "Fillet",
            FeatureKind::Fillet { .. } => "Fillet",
            FeatureKind::PushPull { .. } => "Push/Pull",
            FeatureKind::Rotate { .. } => "Rotate",
            FeatureKind::Scale { .. } => "Scale",
            FeatureKind::Revolve { .. } => "Revolve",
            FeatureKind::Mirror { .. } => "Mirror",
            FeatureKind::Group { .. } => "Group",
            FeatureKind::Sweep { .. } => "Sweep",
        }
    }
}

fn swap_references(ids: &mut Vec<FeatureId>, from: FeatureId, to: FeatureId)
    ensures
        final(ids)@ == old(ids)@.map_values(swapping(from, to)),
{
    let n: usize = ids.len();
    let mut i: usize = 0;
    let ghost before = ids@;
    while i < n
        invariant
            i <= n == before.len() == ids@.len(),
            forall|j: int|
                0 <= j < n ==> #[trigger] ids@[j] == (if j < i && before[j] == from {
                    to
                } else {
                    before[j]
                }),
        decreases n - i,
    {
        if ids[i] == from {
            ids.set(i, to);
        }
        i += 1;
    }
}

/// One entry of the history.
#[derive(Debug)]
pub struct Feature {
    pub id: FeatureId,
    /// The label shown to the user.
    pub name: String,
    /// A suppressed feature stays in the history and is skipped by replay.
    pub suppressed: bool,
    pub kind: FeatureKind,
}

/// What a [`Feature`] holds.
#[verifier::ext_equal]
pub struct FeatureModel {
    pub id: FeatureId,
    pub name: Seq<char>,
    pub suppressed: bool,
    pub kind: KindModel,
}

impl View for Feature {
    type V = FeatureModel;

    open spec fn view(&self) -> FeatureModel {
        FeatureModel {
            id: self.id,
            name: self.name@,
            suppressed: self.suppressed,
            kind: self.kind@,
        }
    }
}

impl FeatureModel {
    pub open spec fn equals(self, other: FeatureModel) -> bool {
        self.id == other.id && self.name == other.name && self.suppressed == other.suppressed
            && self.kind.equals(other.kind)
    }
}

impl Clone for Feature {
    fn clone(&self) -> (r: Feature)
        ensures
            r@ == self@,
    {
        Feature {
            id: self.id,
            name: self.name.clone(),
            suppressed: self.suppressed,
            kind: self.kind.clone(),
        }
    }
}

impl PartialEq for Feature {
    fn eq(&self, other: &Feature) -> (r: bool) {
        self.id == other.id && self.name == other.name && self.suppressed == other.suppressed
            && self.kind == other.kind
    }
}

impl PartialEqSpecImpl for Feature {
    open spec fn obeys_eq_spec() -> bool {
        true
    }

    open spec fn eq_spec(&self, other: &Feature) -> bool {
        self@.equals(other@)
    }
}

/// Rewiring twice is rewiring by the two replacements in turn.
pub proof fn lemma_rewired_twice(
    kind: KindModel,
    f: spec_fn(FeatureId) -> FeatureId,
    g: spec_fn(FeatureId) -> FeatureId,
    h: spec_fn(FeatureId) -> FeatureId,
)
    requires
        forall|id: FeatureId| #[trigger] h(id) == g(f(id)),
    ensures
        kind.rewired(f).rewired(g) == kind.rewired(h),
{
    match kind {
        KindModel::Group { members } => {
            assert(members.map_values(f).map_values(g) =~= members.map_values(h));
        },
        _ => {},
    }
}

/// Rewiring replaces the inputs one for one.
pub proof fn lemma_rewired_inputs(kind: KindModel, f: spec_fn(FeatureId) -> FeatureId)
    ensures
        kind.rewired(f).inputs().len() == kind.inputs().len(),
        forall|k: int|
            0 <= k < kind.inputs().len() ==> #[trigger] kind.rewired(f).inputs()[k] == f(
                kind.inputs()[k],
            ),
{
}

/// Rewiring by a replacement that keeps every reference changes nothing.
pub proof fn lemma_rewired_same(kind: KindModel, f: spec_fn(FeatureId) -> FeatureId)
    requires
        forall|id: FeatureId| #[trigger] f(id) == id,
    ensures
        kind.rewired(f) == kind,
{
    match kind {
        KindModel::Group { members } => {
            assert(members.map_values(f) =~= members);
        },
        _ => {},
    }
}

} // verus!
