//! Drags in the viewport: pushing faces, moving and turning bodies, and resizing
//! them.

use crate::bounds::BodyBox;
use crate::document::DocumentModel;
use crate::features::{FaceAnchor, FeatureId, FeatureKind, KindModel};
use crate::modeler::{Modeler, ModelerModel};
use crate::scalar::{DVec3, Scalar};
use crate::selection::Pick;
use crate::viewport::{Axis3, GizmoHandle};
use vstd::prelude::*;

verus! {

/// A face being pushed or pulled. The feature is added once the drag moves.
#[derive(Clone, Copy, Debug)]
pub struct Manipulation {
    pub source: FeatureId,
    pub anchor: FaceAnchor,
    pub feature: Option<FeatureId>,
}

/// A body being moved or turned. The feature is added once the drag moves. While
/// turning, the pivot stays where the body's centre was at the start.
#[derive(Clone, Copy, Debug)]
pub struct TransformDrag {
    pub source: FeatureId,
    pub feature: Option<FeatureId>,
    pub pivot: Option<DVec3>,
}

/// How a resize edits the model.
#[derive(Clone, Copy, PartialEq, Eq, Debug, Structural)]
pub enum ResizeMode {
    /// The size of a bare box is edited.
    BoxDim,
    /// The radius or the height of a bare cylinder is edited, so it stays round.
    CylDim,
    /// The radius of a bare sphere is edited.
    SphereDim,
    /// A scale feature is added.
    NewScale,
    /// The body's own scale feature is edited; a second is never stacked on it.
    EditScale,
}

/// A body being resized by a grip of its box.
#[derive(Clone, Copy, Debug)]
pub struct ResizeDrag {
    /// The feature edited in place, or the body a new scale is applied to.
    pub source: FeatureId,
    pub mode: ResizeMode,
    /// The body's size when it was grabbed.
    pub base_extent: DVec3,
    /// The scale's factors when it was grabbed.
    pub base_factors: DVec3,
    /// The point that stays where it is.
    pub anchor: DVec3,
    /// The scale feature, once a new one has been added.
    pub feature: Option<FeatureId>,
    /// Whether the drag has changed anything yet.
    pub changed: bool,
}

/// How far a gizmo drag has come.
#[derive(Clone, Copy, Debug)]
pub enum TransformDelta {
    Translate(DVec3),
    Rotate { axis: DVec3, angle: Scalar },
}

/// What is shown next to the gizmo during a drag.
#[derive(Clone, Copy, Debug)]
pub enum Readout {
    /// An angle in radians.
    Angle(Scalar),
    /// A way in millimetres.
    Offset(DVec3),
}

/// Numbers a resize needs, worked out from the target size `t` along the axis,
/// the size `b` at the grab and the scale factor `f` at the grab.
#[derive(Clone, Copy, Debug)]
pub struct Derived {
    /// `t - b / 2`: where the grip is from the middle.
    pub offset: Scalar,
    /// `t / b`.
    pub ratio: Scalar,
    /// `f` times the larger of `t / b` and a ten-thousandth.
    pub product: Scalar,
}

/// A resize step: the dimensions as they are and as they are to be.
#[derive(Clone, Copy, Debug)]
pub struct Goal {
    pub from: DVec3,
    pub to: DVec3,
}

/// A thousandth.
pub open spec fn milli() -> Scalar {
    Scalar { bits: 0x3f50_624d_d2f1_a9fc }
}

/// A ten-thousandth.
pub open spec fn tenth_milli() -> Scalar {
    Scalar { bits: 0x3f1a_36e2_eb1c_432d }
}

/// A millionth.
pub open spec fn micro() -> Scalar {
    Scalar { bits: 0x3eb0_c6f7_a0b5_ed8d }
}

/// A billionth.
pub open spec fn nano() -> Scalar {
    Scalar { bits: 0x3e11_2e0b_e826_d695 }
}

/// A tenth of a millimetre: the least size a resize leaves.
pub open spec fn least_size() -> Scalar {
    Scalar { bits: 0x3fb9_9999_9999_999a }
}

/// Factors that change nothing.
pub open spec fn unscaled() -> DVec3 {
    DVec3 {
        x: Scalar { bits: 0x3ff0_0000_0000_0000 },
        y: Scalar { bits: 0x3ff0_0000_0000_0000 },
        z: Scalar { bits: 0x3ff0_0000_0000_0000 },
    }
}

/// The component along an axis.
pub open spec fn along(v: DVec3, axis: Axis3) -> Scalar {
    match axis {
        Axis3::X => v.x,
        Axis3::Y => v.y,
        Axis3::Z => v.z,
    }
}

/// The vector with its component along an axis replaced.
pub open spec fn with_along(v: DVec3, axis: Axis3, value: Scalar) -> DVec3 {
    match axis {
        Axis3::X => DVec3 { x: value, ..v },
        Axis3::Y => DVec3 { y: value, ..v },
        Axis3::Z => DVec3 { z: value, ..v },
    }
}

/// The component along an axis.
pub fn axis_get(v: DVec3, axis: Axis3) -> (r: Scalar)
    ensures
        r == along(v, axis),
{
    match axis {
        Axis3::X => v.x,
        Axis3::Y => v.y,
        Axis3::Z => v.z,
    }
}

/// Replace the component along an axis.
pub fn axis_set(v: &mut DVec3, axis: Axis3, value: Scalar)
    ensures
        *final(v) == with_along(*old(v), axis, value),
{
    match axis {
        Axis3::X => {
            v.x = value;
        },
        Axis3::Y => {
            v.y = value;
        },
        Axis3::Z => {
            v.z = value;
        },
    }
}

/// No component is beyond the limit. What is no number is beyond any limit.
pub open spec fn within(gap: DVec3, limit: Scalar) -> bool {
    at_most(gap.x, limit) && at_most(gap.y, limit) && at_most(gap.z, limit)
}

/// At most the limit.
pub open spec fn at_most(value: Scalar, limit: Scalar) -> bool {
    value.less(limit) || value.equals(limit)
}

fn is_within(gap: DVec3, limit: Scalar) -> (r: bool)
    ensures
        r == within(gap, limit),
{
    (gap.x < limit || gap.x == limit) && (gap.y < limit || gap.y == limit) && (gap.z < limit
        || gap.z == limit)
}

impl ModelerModel {
    /// The state with a feature's operation replaced.
    pub open spec fn with_kind(self, id: FeatureId, kind: KindModel) -> ModelerModel {
        ModelerModel {
            doc: DocumentModel { history: self.doc.history.with_kind(id, kind), ..self.doc },
            ..self
        }
    }

    /// The state without a feature, and without the undo entry made for it.
    pub open spec fn discarded(self, id: FeatureId) -> ModelerModel {
        (ModelerModel {
            doc: DocumentModel { history: self.doc.history.without(id), ..self.doc },
            ..self
        }).unrecorded()
    }

    /// The state with a feature added after keeping the document for undo,
    /// whatever is selected in the panel.
    pub open spec fn with_quiet_feature(self, name: Seq<char>, kind: KindModel) -> ModelerModel {
        ModelerModel { doc: self.doc.added(name, kind), ..self.saved() }
    }

    /// The push or pull a press starts: a face of a visible body, known to be
    /// planar, with its normal turned toward the eye.
    pub open spec fn push_start(
        self,
        pick: Pick,
        point: DVec3,
        normal: Option<DVec3>,
        facing: Scalar,
    ) -> Option<Manipulation> {
        match (pick, normal, self.body_of(pick)) {
            (Pick::Face(_), Some(n), Some(source)) => Some(
                Manipulation {
                    source,
                    anchor: FaceAnchor {
                        point,
                        normal: if facing.less(Scalar { bits: 0 }) {
                            flipped(n)
                        } else {
                            n
                        },
                    },
                    feature: None,
                },
            ),
            _ => None,
        }
    }

    /// The state after a push or pull to `distance`: the feature is added at the
    /// first move and edited from then on.
    pub open spec fn pushed(self, distance: Scalar) -> ModelerModel {
        match self.manipulation {
            None => self,
            Some(m) => match m.feature {
                None => (ModelerModel {
                    manipulation: Some(
                        Manipulation { feature: Some(FeatureId(self.doc.history.next_id)), ..m },
                    ),
                    ..self.with_quiet_feature(
                        "Push/Pull"@,
                        KindModel::PushPull { source: m.source, anchor: m.anchor, distance },
                    )
                }).deselected(),
                Some(id) => match self.doc.history.kind_of(id) {
                    Some(KindModel::PushPull { source, anchor, .. }) => self.with_kind(
                        id,
                        KindModel::PushPull { source, anchor, distance },
                    ),
                    _ => self,
                }.deselected(),
            },
        }
    }

    /// How far the face has been pushed.
    pub open spec fn push_distance(self, id: FeatureId) -> Scalar {
        match self.doc.history.kind_of(id) {
            Some(KindModel::PushPull { distance, .. }) => distance,
            _ => Scalar { bits: 0 },
        }
    }

    /// The state after a push or pull ends: one that was called off or moved
    /// less than a thousandth of a millimetre leaves nothing behind.
    pub open spec fn push_ended(self, commit: bool) -> ModelerModel {
        match self.manipulation {
            None => self,
            Some(m) => {
                let left = ModelerModel { manipulation: None, ..self };
                match m.feature {
                    None => left,
                    Some(id) => if !commit || (Scalar {
                        bits: self.push_distance(id).magnitude() as u64,
                    }).less(milli()) {
                        left.discarded(id)
                    } else {
                        left
                    },
                }
            },
        }
    }

    /// Where the gizmo stands for the selection: at the centre of a lone
    /// selected face's body.
    pub open spec fn gizmo_origin(self) -> Option<DVec3> {
        match self.selected_box() {
            Some(b) => Some(b.center),
            None => None,
        }
    }

    /// The box of a lone selected face's body.
    pub open spec fn selected_box(self) -> Option<BodyBox> {
        if self.selection.lone_face() {
            self.box_of_selected_body()
        } else {
            None
        }
    }

    /// The box of the selected body.
    pub open spec fn box_of_selected_body(self) -> Option<BodyBox> {
        match self.selected_body() {
            Some(body) => self.box_of(body),
            None => None,
        }
    }

    /// The box of a visible body.
    pub open spec fn box_of(self, body: FeatureId) -> Option<BodyBox> {
        match self.ui.visible.index_of_first(body) {
            Some(i) => if i < self.body_boxes.len() {
                Some(self.body_boxes[i])
            } else {
                None
            },
            None => None,
        }
    }

    /// Where the gizmo is shown: pinned to the pivot while a body is turned, and
    /// nowhere while drawing a sketch.
    pub open spec fn gizmo(self) -> Option<DVec3> {
        if self.session is Some {
            None
        } else {
            match self.transform {
                Some(TransformDrag { pivot: Some(p), .. }) => Some(p),
                _ => self.gizmo_origin(),
            }
        }
    }

    /// The drag a grabbed handle starts.
    pub open spec fn transform_start(self, handle: GizmoHandle) -> Option<TransformDrag> {
        match self.selected_body() {
            Some(source) => Some(
                TransformDrag {
                    source,
                    feature: None,
                    pivot: if handle is RotateAxis {
                        self.gizmo_origin()
                    } else {
                        None
                    },
                },
            ),
            None => None,
        }
    }

    /// The state after a gizmo drag came as far as `delta`: the feature is added
    /// at the first move and replaced from then on.
    pub open spec fn transformed(self, delta: TransformDelta) -> ModelerModel {
        match self.transform {
            None => self,
            Some(t) => match t.feature {
                None => ModelerModel {
                    transform: Some(
                        TransformDrag { feature: Some(FeatureId(self.doc.history.next_id)), ..t },
                    ),
                    ..self.with_feature(delta_name(delta), delta_kind(t, delta))
                },
                Some(id) => self.with_kind(id, delta_kind(t, delta)),
            },
        }
    }

    /// Whether a moved or turned body is where it was: moved less than a
    /// thousandth of a millimetre, or turned less than a ten-thousandth of a
    /// radian. `length` is the length of the way it was moved.
    pub open spec fn transform_is_idle(self, id: FeatureId, length: Scalar) -> bool {
        match self.doc.history.kind_of(id) {
            Some(KindModel::Translate { .. }) => !at_most(milli(), length),
            Some(KindModel::Rotate { angle, .. }) => !at_most(
                tenth_milli(),
                Scalar { bits: angle.magnitude() as u64 },
            ),
            _ => false,
        }
    }

    /// The state after a gizmo drag ends: one that was called off or came to
    /// nothing leaves nothing behind.
    pub open spec fn transform_ended(self, commit: bool, length: Scalar) -> ModelerModel {
        match self.transform {
            None => self,
            Some(t) => {
                let left = ModelerModel { transform: None, ..self };
                match t.feature {
                    None => left,
                    Some(id) => if !commit || self.transform_is_idle(id, length) {
                        left.discarded(id)
                    } else {
                        left
                    },
                }
            },
        }
    }

    /// What is shown next to the gizmo.
    pub open spec fn readout(self) -> Option<Readout> {
        match self.transform {
            Some(TransformDrag { feature: Some(id), .. }) => match self.doc.history.kind_of(id) {
                Some(KindModel::Rotate { angle, .. }) => Some(Readout::Angle(angle)),
                Some(KindModel::Translate { offset, .. }) => Some(Readout::Offset(offset)),
                _ => None,
            },
            _ => None,
        }
    }

    /// The drag a grabbed resize grip starts. `doubled` is twice the radius of a
    /// cylinder or sphere.
    pub open spec fn resize_start(self, doubled: Scalar) -> Option<ResizeDrag> {
        match (self.selected_body(), self.box_of_selected_body()) {
            (Some(source), Some(b)) => {
                let drag = ResizeDrag {
                    source,
                    mode: ResizeMode::NewScale,
                    base_extent: b.extent,
                    base_factors: unscaled(),
                    anchor: b.min,
                    feature: None,
                    changed: false,
                };
                Some(
                    match self.doc.history.kind_of(source) {
                        Some(KindModel::Box { size }) => ResizeDrag {
                            mode: ResizeMode::BoxDim,
                            base_extent: size,
                            ..drag
                        },
                        Some(KindModel::Cylinder { height, .. }) => ResizeDrag {
                            mode: ResizeMode::CylDim,
                            base_extent: DVec3 { x: doubled, y: doubled, z: height },
                            ..drag
                        },
                        Some(KindModel::Sphere { .. }) => ResizeDrag {
                            mode: ResizeMode::SphereDim,
                            base_extent: DVec3 { x: doubled, y: doubled, z: doubled },
                            ..drag
                        },
                        Some(KindModel::Scale { factors, anchor, .. }) => ResizeDrag {
                            mode: ResizeMode::EditScale,
                            base_factors: factors,
                            anchor,
                            ..drag
                        },
                        _ => drag,
                    },
                )
            },
            _ => None,
        }
    }

    /// What a resize to `extent` along `axis` aims at. A body cannot be scaled
    /// along an axis on which it has no thickness.
    pub open spec fn goal(self, axis: Axis3, extent: Scalar, derived: Derived) -> Option<Goal> {
        let target = extent.larger(least_size());
        match self.resize {
            None => None,
            Some(r) => match (r.mode, self.doc.history.kind_of(r.source)) {
                (ResizeMode::BoxDim, Some(KindModel::Box { size })) => Some(
                    Goal { from: size, to: with_along(size, axis, target) },
                ),
                (ResizeMode::CylDim, Some(KindModel::Cylinder { radius, height })) => {
                    let new_radius = derived.offset.larger(least_size());
                    Some(
                        Goal {
                            from: DVec3 { x: radius, y: radius, z: height },
                            to: if axis == Axis3::Z {
                                DVec3 { x: radius, y: radius, z: target }
                            } else {
                                DVec3 { x: new_radius, y: new_radius, z: height }
                            },
                        },
                    )
                },
                (ResizeMode::SphereDim, Some(KindModel::Sphere { radius })) => {
                    let new_radius = derived.offset.larger(least_size());
                    Some(
                        Goal {
                            from: DVec3 { x: radius, y: radius, z: radius },
                            to: DVec3 { x: new_radius, y: new_radius, z: new_radius },
                        },
                    )
                },
                (ResizeMode::NewScale, _) => if along(r.base_extent, axis).less(micro()) {
                    None
                } else {
                    Some(
                        Goal {
                            from: unscaled(),
                            to: with_along(
                                unscaled(),
                                axis,
                                derived.ratio.larger(tenth_milli()),
                            ),
                        },
                    )
                },
                (ResizeMode::EditScale, _) => if along(r.base_extent, axis).less(micro()) {
                    None
                } else {
                    Some(
                        Goal {
                            from: r.base_factors,
                            to: with_along(r.base_factors, axis, derived.product),
                        },
                    )
                },
                _ => None,
            },
        }
    }

    /// The state with the resized feature's dimensions set.
    pub open spec fn with_dimensions(self, id: FeatureId, to: DVec3) -> ModelerModel {
        match self.doc.history.kind_of(id) {
            Some(KindModel::Box { .. }) => self.with_kind(id, KindModel::Box { size: to }),
            Some(KindModel::Cylinder { .. }) => self.with_kind(
                id,
                KindModel::Cylinder { radius: to.x, height: to.z },
            ),
            Some(KindModel::Sphere { .. }) => self.with_kind(
                id,
                KindModel::Sphere { radius: to.x },
            ),
            Some(KindModel::Scale { source, anchor, .. }) => self.with_kind(
                id,
                KindModel::Scale { source, factors: to, anchor },
            ),
            _ => self,
        }
    }

    /// Whether the dimensions stay: the gap between those of the goal is within a
    /// billionth.
    pub open spec fn stays(self, gap: DVec3) -> bool {
        match self.resize->Some_0.mode {
            ResizeMode::CylDim => gap.x.less(nano()) && gap.z.less(nano()),
            ResizeMode::SphereDim => gap.x.less(nano()),
            _ => within(gap, nano()),
        }
    }

    /// Whether a resize step changes the document. Once a new scale has been
    /// added, every step does.
    pub open spec fn resizes(
        self,
        axis: Axis3,
        extent: Scalar,
        derived: Derived,
        gap: DVec3,
    ) -> bool {
        self.goal(axis, extent, derived) is Some && ((self.resize->Some_0.mode
            == ResizeMode::NewScale && self.resize->Some_0.feature is Some) || !self.stays(gap))
    }

    /// The state after a resize step. The first change keeps the document for
    /// undo.
    pub open spec fn resized(
        self,
        axis: Axis3,
        extent: Scalar,
        derived: Derived,
        gap: DVec3,
    ) -> ModelerModel {
        if !self.resizes(axis, extent, derived, gap) {
            self
        } else {
            let r = self.resize->Some_0;
            let to = self.goal(axis, extent, derived)->Some_0.to;
            match (r.mode, r.feature) {
                (ResizeMode::NewScale, None) => ModelerModel {
                    resize: Some(
                        ResizeDrag {
                            feature: Some(FeatureId(self.doc.history.next_id)),
                            changed: true,
                            ..r
                        },
                    ),
                    ..self.with_feature(
                        "Resize"@,
                        KindModel::Scale { source: r.source, factors: to, anchor: r.anchor },
                    )
                },
                (ResizeMode::NewScale, Some(id)) => self.rescaled(id, to),
                _ => {
                    let kept = if r.changed {
                        self
                    } else {
                        self.saved()
                    };
                    let started = ModelerModel {
                        resize: Some(ResizeDrag { changed: true, ..r }),
                        ..kept
                    };
                    match r.mode {
                        ResizeMode::EditScale => started.rescaled(r.source, to),
                        _ => started.with_dimensions(r.source, to),
                    }
                },
            }
        }
    }

    /// The state with the factors of a scale feature set.
    pub open spec fn rescaled(self, id: FeatureId, factors: DVec3) -> ModelerModel {
        match self.doc.history.kind_of(id) {
            Some(KindModel::Scale { source, anchor, .. }) => self.with_kind(
                id,
                KindModel::Scale { source, factors, anchor },
            ),
            _ => self,
        }
    }

    /// The dimensions a resized primitive had when it was grabbed. `halved` is
    /// half the first of the base extents.
    pub open spec fn grabbed_dimensions(self, halved: Scalar) -> DVec3 {
        let r = self.resize->Some_0;
        match r.mode {
            ResizeMode::CylDim => DVec3 { x: halved, y: halved, z: r.base_extent.z },
            ResizeMode::SphereDim => DVec3 { x: halved, y: halved, z: halved },
            _ => r.base_extent,
        }
    }

    /// The state after a resize ends. One that was called off leaves the
    /// dimensions as they were when the body was grabbed; so does a new scale
    /// whose factors are within a millionth of one, `gap` being how far they are
    /// from it.
    pub open spec fn resize_ended(self, commit: bool, halved: Scalar, gap: DVec3) -> ModelerModel {
        match self.resize {
            None => self,
            Some(r) => {
                let left = ModelerModel { resize: None, ..self };
                if !r.changed {
                    left
                } else {
                    match r.mode {
                        ResizeMode::NewScale => match r.feature {
                            None => left,
                            Some(id) => {
                                let idle = match self.doc.history.kind_of(id) {
                                    Some(KindModel::Scale { .. }) => within(gap, micro()),
                                    _ => true,
                                };
                                if !commit || idle {
                                    left.discarded(id)
                                } else {
                                    left
                                }
                            },
                        },
                        ResizeMode::EditScale => if commit {
                            left
                        } else {
                            left.rescaled(r.source, r.base_factors).unrecorded()
                        },
                        _ => if commit {
                            left
                        } else {
                            left.restored(
                                r.source,
                                r.mode,
                                self.grabbed_dimensions(halved),
                            ).unrecorded()
                        },
                    }
                }
            },
        }
    }

    /// The state with the dimensions of a primitive of the given kind set.
    pub open spec fn restored(self, id: FeatureId, mode: ResizeMode, to: DVec3) -> ModelerModel {
        match (mode, self.doc.history.kind_of(id)) {
            (ResizeMode::BoxDim, Some(KindModel::Box { .. })) => self.with_dimensions(id, to),
            (ResizeMode::CylDim, Some(KindModel::Cylinder { .. })) => self.with_dimensions(id, to),
            (ResizeMode::SphereDim, Some(KindModel::Sphere { .. })) => self.with_dimensions(id, to),
            _ => self,
        }
    }
}

/// The vector pointing the other way.
pub open spec fn flipped(v: DVec3) -> DVec3 {
    DVec3 { x: v.x.flipped(), y: v.y.flipped(), z: v.z.flipped() }
}

/// The name of the feature a gizmo drag adds.
pub open spec fn delta_name(delta: TransformDelta) -> Seq<char> {
    match delta {
        TransformDelta::Translate(_) => "Move"@,
        TransformDelta::Rotate { .. } => "Rotate"@,
    }
}

/// The operation a gizmo drag amounts to. A body is turned about the pivot.
pub open spec fn delta_kind(t: TransformDrag, delta: TransformDelta) -> KindModel {
    match delta {
        TransformDelta::Translate(offset) => KindModel::Translate { source: t.source, offset },
        TransformDelta::Rotate { axis, angle } => KindModel::Rotate {
            source: t.source,
            axis,
            angle,
            center: match t.pivot {
                Some(p) => p,
                None => crate::scalar::zero_vector(),
            },
        },
    }
}

impl Modeler {
    /// Replace a feature's operation.
    fn set_kind(&mut self, id: FeatureId, kind: FeatureKind)
        ensures
            final(self)@ == old(self)@.with_kind(id, kind@),
    {
        if let Some(f) = self.doc.history.get_mut(id) {
            f.kind = kind;
        }
    }

    /// Remove a feature and the undo entry made for it.
    fn discard(&mut self, id: FeatureId)
        ensures
            final(self)@ == old(self)@.discarded(id),
    {
        let _ = self.doc.history.remove(id);
        self.forget_undo();
    }

    /// Begin to push or pull the face under the cursor, where `point` lies on it.
    /// `normal` is the unit normal of its plane, if it is planar, and `facing`
    /// the projection onto it of the way from the point to the eye. Returns the
    /// line to drag along.
    pub fn start_manipulation(
        &mut self,
        pick: Pick,
        point: DVec3,
        normal: Option<DVec3>,
        facing: Scalar,
    ) -> (r: Option<FaceAnchor>)
        ensures
            match old(self)@.push_start(pick, point, normal, facing) {
                Some(m) => r == Some(m.anchor) && final(self)@ == (ModelerModel {
                    manipulation: Some(m),
                    ..old(self)@
                }),
                None => r is None && final(self)@ == old(self)@,
            },
    {
        match pick {
            Pick::Edge(_) => return None,
            Pick::Face(_) => {},
        }
        let outward = match normal {
            None => return None,
            Some(n) => {
                if facing < Scalar::zero() {
                    DVec3::new(n.x.negated(), n.y.negated(), n.z.negated())
                } else {
                    n
                }
            },
        };
        let source = match self.body_of(pick) {
            None => return None,
            Some(source) => source,
        };
        let anchor = FaceAnchor { point, normal: outward };
        self.manipulation = Some(Manipulation { source, anchor, feature: None });
        Some(anchor)
    }

    /// Push or pull to `distance` along the normal. Returns whether a face was
    /// being pushed.
    pub fn update_manipulation(&mut self, distance: Scalar) -> (r: bool)
        requires
            old(self)@.doc.history.next_id < u64::MAX,
        ensures
            r == old(self)@.manipulation is Some,
            final(self)@ == old(self)@.pushed(distance),
    {
        let mut m = match self.manipulation {
            None => return false,
            Some(m) => m,
        };
        match m.feature {
            None => {
                let before = self.doc.clone();
                self.record_undo(before);
                let id = self.doc.add(
                    "Push/Pull",
                    FeatureKind::PushPull { source: m.source, anchor: m.anchor, distance },
                );
                m.feature = Some(id);
                self.manipulation = Some(m);
            },
            Some(id) => {
                let found = match self.doc.history.get(id) {
                    Some(f) => match f.kind {
                        FeatureKind::PushPull { source, anchor, .. } => Some((source, anchor)),
                        _ => None,
                    },
                    None => None,
                };
                if let Some((source, anchor)) = found {
                    self.set_kind(id, FeatureKind::PushPull { source, anchor, distance });
                }
            },
        }
        self.selection.clear();
        true
    }

    /// End a push or pull.
    pub fn finish_manipulation(&mut self, commit: bool)
        ensures
            final(self)@ == old(self)@.push_ended(commit),
    {
        let m = match self.manipulation {
            None => return,
            Some(m) => m,
        };
        self.manipulation = None;
        let id = match m.feature {
            None => return,
            Some(id) => id,
        };
        let distance = match self.doc.history.get(id) {
            Some(f) => match f.kind {
                FeatureKind::PushPull { distance, .. } => distance,
                _ => Scalar::zero(),
            },
            None => Scalar::zero(),
        };
        if !commit || distance.abs() < Scalar::from_bits(0x3f50_624d_d2f1_a9fc) {
            self.discard(id);
        }
    }

    fn box_of(&self, body: FeatureId) -> (r: Option<BodyBox>)
        ensures
            r == self@.box_of(body),
    {
        let mut i: usize = 0;
        proof {
            self.ui.visible@.index_of_first_ensures(body);
        }
        while i < self.ui.visible.len()
            invariant
                i <= self.ui.visible@.len(),
                forall|k: int| 0 <= k < i ==> #[trigger] self.ui.visible@[k] != body,
            decreases self.ui.visible@.len() - i,
        {
            if self.ui.visible[i] == body {
                proof {
                    self.ui.visible@.index_of_first_ensures(body);
                    assert(self.ui.visible@.contains(body));
                }
                return if i < self.body_boxes.len() {
                    Some(self.body_boxes[i])
                } else {
                    None
                };
            }
            i += 1;
        }
        proof {
            self.ui.visible@.index_of_first_ensures(body);
        }
        None
    }

    fn box_of_selected_body(&self) -> (r: Option<BodyBox>)
        ensures
            r == self@.box_of_selected_body(),
    {
        match self.selected_body() {
            Some(body) => self.box_of(body),
            None => None,
        }
    }

    /// The box of a lone selected face's body.
    pub fn selected_box(&self) -> (r: Option<BodyBox>)
        ensures
            r == self@.selected_box(),
    {
        if self.selection.is_lone_face() {
            self.box_of_selected_body()
        } else {
            None
        }
    }

    /// Where the gizmo stands for the selection.
    pub fn gizmo_origin(&self) -> (r: Option<DVec3>)
        ensures
            r == self@.gizmo_origin(),
    {
        match self.selected_box() {
            Some(b) => Some(b.center),
            None => None,
        }
    }

    /// Where the gizmo is shown.
    pub fn gizmo(&self) -> (r: Option<DVec3>)
        ensures
            r == self@.gizmo(),
    {
        if self.sketch_session.is_some() {
            return None;
        }
        if let Some(t) = self.transform {
            if let Some(pivot) = t.pivot {
                return Some(pivot);
            }
        }
        self.gizmo_origin()
    }

    /// Begin to move or turn the selected body by a gizmo handle.
    pub fn start_transform(&mut self, handle: GizmoHandle)
        ensures
            final(self)@ == (match old(self)@.transform_start(handle) {
                Some(t) => ModelerModel { transform: Some(t), ..old(self)@ },
                None => old(self)@,
            }),
    {
        if let Some(source) = self.selected_body() {
            let pivot = match handle {
                GizmoHandle::RotateAxis(_) => self.gizmo_origin(),
                _ => None,
            };
            self.transform = Some(TransformDrag { source, feature: None, pivot });
        }
    }

    /// Move or turn the body as far as `delta`. Returns whether one was being
    /// dragged.
    pub fn update_transform(&mut self, delta: TransformDelta) -> (r: bool)
        requires
            old(self)@.doc.history.next_id < u64::MAX,
        ensures
            r == old(self)@.transform is Some,
            final(self)@ == old(self)@.transformed(delta),
    {
        let mut t = match self.transform {
            None => return false,
            Some(t) => t,
        };
        let (name, kind) = match delta {
            TransformDelta::Translate(offset) => (
                "Move",
                FeatureKind::Translate { source: t.source, offset },
            ),
            TransformDelta::Rotate { axis, angle } => (
                "Rotate",
                FeatureKind::Rotate {
                    source: t.source,
                    axis,
                    angle,
                    center: match t.pivot {
                        Some(p) => p,
                        None => DVec3::splat(Scalar::zero()),
                    },
                },
            ),
        };
        match t.feature {
            None => {
                let id = self.add_feature(name, kind);
                t.feature = Some(id);
                self.transform = Some(t);
            },
            Some(id) => {
                self.set_kind(id, kind);
            },
        }
        true
    }

    /// End a gizmo drag. `length` is the length of the way the body was moved, as
    /// [`Modeler::transform_readout`] has it.
    pub fn finish_transform(&mut self, commit: bool, length: Scalar)
        ensures
            final(self)@ == old(self)@.transform_ended(commit, length),
    {
        let t = match self.transform {
            None => return,
            Some(t) => t,
        };
        self.transform = None;
        let id = match t.feature {
            None => return,
            Some(id) => id,
        };
        let moved = match self.doc.history.get(id) {
            Some(f) => match f.kind {
                FeatureKind::Translate { .. } => {
                    let limit = Scalar::from_bits(0x3f50_624d_d2f1_a9fc);
                    limit < length || limit == length
                },
                FeatureKind::Rotate { angle, .. } => {
                    let limit = Scalar::from_bits(0x3f1a_36e2_eb1c_432d);
                    limit < angle.abs() || limit == angle.abs()
                },
                _ => true,
            },
            None => true,
        };
        if !commit || !moved {
            self.discard(id);
        }
    }

    /// What is shown next to the gizmo.
    pub fn transform_readout(&self) -> (r: Option<Readout>)
        ensures
            r == self@.readout(),
    {
        match self.transform {
            Some(TransformDrag { feature: Some(id), .. }) => match self.doc.history.get(id) {
                Some(f) => match f.kind {
                    FeatureKind::Rotate { angle, .. } => Some(Readout::Angle(angle)),
                    FeatureKind::Translate { offset, .. } => Some(Readout::Offset(offset)),
                    _ => None,
                },
                None => None,
            },
            _ => None,
        }
    }

    /// The box whose grips are shown: that of a lone selected face's body, unless
    /// it has no thickness at all.
    pub fn resize_box(&self) -> (r: Option<BodyBox>)
        ensures
            r == (match self@.selected_box() {
                Some(b) => if at_most(micro(), b.span) {
                    Some(b)
                } else {
                    None
                },
                None => None,
            }),
    {
        match self.selected_box() {
            Some(b) => {
                let limit = Scalar::from_bits(0x3eb0_c6f7_a0b5_ed8d);
                if limit < b.span || limit == b.span {
                    Some(b)
                } else {
                    None
                }
            },
            None => None,
        }
    }

    /// The radius of the selected body, if it is a bare cylinder or sphere.
    pub fn selected_radius(&self) -> (r: Option<Scalar>)
        ensures
            r == (match self@.selected_body() {
                Some(id) => match self@.doc.history.kind_of(id) {
                    Some(KindModel::Cylinder { radius, .. }) => Some(radius),
                    Some(KindModel::Sphere { radius }) => Some(radius),
                    _ => None,
                },
                None => None,
            }),
    {
        match self.selected_body() {
            Some(id) => match self.doc.history.get(id) {
                Some(f) => match f.kind {
                    FeatureKind::Cylinder { radius, .. } => Some(radius),
                    FeatureKind::Sphere { radius } => Some(radius),
                    _ => None,
                },
                None => None,
            },
            None => None,
        }
    }

    /// Begin to resize the selected body. A bare primitive has its own dimensions
    /// edited, a scaled body its scale, and any other body gets a scale.
    /// `doubled` is twice [`Modeler::selected_radius`].
    pub fn start_resize(&mut self, doubled: Scalar)
        ensures
            final(self)@ == (match old(self)@.resize_start(doubled) {
                Some(drag) => ModelerModel { resize: Some(drag), ..old(self)@ },
                None => old(self)@,
            }),
    {
        let source = match self.selected_body() {
            None => return,
            Some(source) => source,
        };
        let b = match self.box_of(source) {
            None => return,
            Some(b) => b,
        };
        let one = DVec3::splat(Scalar::one());
        let mut drag = ResizeDrag {
            source,
            mode: ResizeMode::NewScale,
            base_extent: b.extent,
            base_factors: one,
            anchor: b.min,
            feature: None,
            changed: false,
        };
        if let Some(f) = self.doc.history.get(source) {
            match f.kind {
                FeatureKind::Box { size } => {
                    drag.mode = ResizeMode::BoxDim;
                    drag.base_extent = size;
                },
                FeatureKind::Cylinder { height, .. } => {
                    drag.mode = ResizeMode::CylDim;
                    drag.base_extent = DVec3::new(doubled, doubled, height);
                },
                FeatureKind::Sphere { .. } => {
                    drag.mode = ResizeMode::SphereDim;
                    drag.base_extent = DVec3::splat(doubled);
                },
                FeatureKind::Scale { factors, anchor, .. } => {
                    drag.mode = ResizeMode::EditScale;
                    drag.base_factors = factors;
                    drag.anchor = anchor;
                },
                _ => {},
            }
        }
        self.resize = Some(drag);
    }

    /// What a resize to `extent` along `axis` aims at, given the numbers derived
    /// from it.
    pub fn resize_goal(&self, axis: Axis3, extent: Scalar, derived: Derived) -> (r: Option<Goal>)
        ensures
            r == self@.goal(axis, extent, derived),
    {
        let r = match self.resize {
            None => return None,
            Some(r) => r,
        };
        let target = extent.max(Scalar::from_bits(0x3fb9_9999_9999_999a));
        let thin = axis_get(r.base_extent, axis) < Scalar::from_bits(0x3eb0_c6f7_a0b5_ed8d);
        match r.mode {
            ResizeMode::NewScale => {
                if thin {
                    return None;
                }
                let from = DVec3::splat(Scalar::one());
                let mut to = from;
                axis_set(
                    &mut to,
                    axis,
                    derived.ratio.max(Scalar::from_bits(0x3f1a_36e2_eb1c_432d)),
                );
                return Some(Goal { from, to });
            },
            ResizeMode::EditScale => {
                if thin {
                    return None;
                }
                let from = r.base_factors;
                let mut to = from;
                axis_set(&mut to, axis, derived.product);
                return Some(Goal { from, to });
            },
            _ => {},
        }
        let f = match self.doc.history.get(r.source) {
            None => return None,
            Some(f) => f,
        };
        let new_radius = derived.offset.max(Scalar::from_bits(0x3fb9_9999_9999_999a));
        match (r.mode, &f.kind) {
            (ResizeMode::BoxDim, FeatureKind::Box { size }) => {
                let mut to = *size;
                axis_set(&mut to, axis, target);
                Some(Goal { from: *size, to })
            },
            (ResizeMode::CylDim, FeatureKind::Cylinder { radius, height }) => {
                let to = if axis == Axis3::Z {
                    DVec3::new(*radius, *radius, target)
                } else {
                    DVec3::new(new_radius, new_radius, *height)
                };
                Some(Goal { from: DVec3::new(*radius, *radius, *height), to })
            },
            (ResizeMode::SphereDim, FeatureKind::Sphere { radius }) => {
                Some(Goal { from: DVec3::splat(*radius), to: DVec3::splat(new_radius) })
            },
            _ => None,
        }
    }

    /// Set the factors of a scale feature.
    fn rescale(&mut self, id: FeatureId, factors: DVec3)
        ensures
            final(self)@ == old(self)@.rescaled(id, factors),
    {
        let found = match self.doc.history.get(id) {
            Some(f) => match f.kind {
                FeatureKind::Scale { source, anchor, .. } => Some((source, anchor)),
                _ => None,
            },
            None => None,
        };
        if let Some((source, anchor)) = found {
            self.set_kind(id, FeatureKind::Scale { source, factors, anchor });
        }
    }

    /// Set the dimensions of a primitive resized in the given mode.
    fn set_dimensions(&mut self, id: FeatureId, mode: ResizeMode, to: DVec3)
        requires
            mode == ResizeMode::BoxDim || mode == ResizeMode::CylDim || mode
                == ResizeMode::SphereDim,
        ensures
            final(self)@ == old(self)@.restored(id, mode, to),
    {
        let fitting = match self.doc.history.get(id) {
            Some(f) => match (mode, &f.kind) {
                (ResizeMode::BoxDim, FeatureKind::Box { .. }) => true,
                (ResizeMode::CylDim, FeatureKind::Cylinder { .. }) => true,
                (ResizeMode::SphereDim, FeatureKind::Sphere { .. }) => true,
                _ => false,
            },
            None => false,
        };
        if fitting {
            let kind = match mode {
                ResizeMode::BoxDim => FeatureKind::Box { size: to },
                ResizeMode::CylDim => FeatureKind::Cylinder { radius: to.x, height: to.z },
                _ => FeatureKind::Sphere { radius: to.x },
            };
            self.set_kind(id, kind);
        }
    }

    /// Resize to `extent` along `axis`. `gap` is how far apart, component by
    /// component, the two sides of [`Modeler::resize_goal`] are. Returns whether
    /// the document changed.
    pub fn update_resize(
        &mut self,
        axis: Axis3,
        extent: Scalar,
        derived: Derived,
        gap: DVec3,
    ) -> (changed: bool)
        requires
            old(self)@.doc.history.next_id < u64::MAX,
        ensures
            changed == old(self)@.resizes(axis, extent, derived, gap),
            final(self)@ == old(self)@.resized(axis, extent, derived, gap),
    {
        let to = match self.resize_goal(axis, extent, derived) {
            None => return false,
            Some(goal) => goal.to,
        };
        let mut r = match self.resize {
            None => return false,
            Some(r) => r,
        };
        let limit = Scalar::from_bits(0x3e11_2e0b_e826_d695);
        let stays = match r.mode {
            ResizeMode::CylDim => gap.x < limit && gap.z < limit,
            ResizeMode::SphereDim => gap.x < limit,
            _ => is_within(gap, limit),
        };
        if r.mode == ResizeMode::NewScale {
            match r.feature {
                Some(id) => {
                    self.rescale(id, to);
                    return true;
                },
                None => {
                    if stays {
                        return false;
                    }
                    let id = self.add_feature(
                        "Resize",
                        FeatureKind::Scale { source: r.source, factors: to, anchor: r.anchor },
                    );
                    r.feature = Some(id);
                    r.changed = true;
                    self.resize = Some(r);
                    return true;
                },
            }
        }
        if stays {
            return false;
        }
        if !r.changed {
            let before = self.doc.clone();
            self.record_undo(before);
            r.changed = true;
        }
        self.resize = Some(r);
        if r.mode == ResizeMode::EditScale {
            self.rescale(r.source, to);
        } else {
            self.set_dimensions(r.source, r.mode, to);
        }
        true
    }

    /// The factors of the scale a resize has added.
    pub fn resize_factors(&self) -> (r: Option<DVec3>)
        ensures
            r == (match self@.resize {
                Some(ResizeDrag { mode: ResizeMode::NewScale, feature: Some(id), .. }) =>
                    match self@.doc.history.kind_of(id) {
                    Some(KindModel::Scale { factors, .. }) => Some(factors),
                    _ => None,
                },
                _ => None,
            }),
    {
        match self.resize {
            Some(ResizeDrag { mode: ResizeMode::NewScale, feature: Some(id), .. }) => {
                match self.doc.history.get(id) {
                    Some(f) => match f.kind {
                        FeatureKind::Scale { factors, .. } => Some(factors),
                        _ => None,
                    },
                    None => None,
                }
            },
            _ => None,
        }
    }

    /// End a resize. `halved` is half the first of the base extents, and `gap`
    /// how far [`Modeler::resize_factors`] are from one.
    pub fn finish_resize(&mut self, commit: bool, halved: Scalar, gap: DVec3)
        ensures
            final(self)@ == old(self)@.resize_ended(commit, halved, gap),
    {
        let r = match self.resize {
            None => return,
            Some(r) => r,
        };
        self.resize = None;
        if !r.changed {
            return;
        }
        match r.mode {
            ResizeMode::NewScale => {
                if let Some(id) = r.feature {
                    let is_scale = match self.doc.history.get(id) {
                        Some(f) => match f.kind {
                            FeatureKind::Scale { .. } => true,
                            _ => false,
                        },
                        None => false,
                    };
                    let idle = !is_scale || is_within(
                        gap,
                        Scalar::from_bits(0x3eb0_c6f7_a0b5_ed8d),
                    );
                    if !commit || idle {
                        self.discard(id);
                    }
                }
            },
            ResizeMode::EditScale => {
                if !commit {
                    self.rescale(r.source, r.base_factors);
                    self.forget_undo();
                }
            },
            _ => {
                if !commit {
                    let to = match r.mode {
                        ResizeMode::CylDim => DVec3::new(halved, halved, r.base_extent.z),
                        ResizeMode::SphereDim => DVec3::splat(halved),
                        _ => r.base_extent,
                    };
                    self.set_dimensions(r.source, r.mode, to);
                    self.forget_undo();
                }
            },
        }
    }
}

} // verus!
