//! What drags do to the part.

use crate::drags::{Derived, ResizeMode, TransformDelta};
use crate::features::{FeatureId, KindModel};
use crate::modeler::ModelerModel;
use crate::scalar::{DVec3, Scalar};
use crate::selection::Pick;
use crate::viewport::{Axis3, GizmoHandle};
use vstd::prelude::*;

verus! {

/// The operation a feature has in the history.
pub open spec fn operation(m: ModelerModel, id: FeatureId) -> Option<KindModel> {
    match crate::history::position(m.doc.history.features, id, 0) {
        Some(i) => Some(m.doc.history.features[i].kind),
        None => None,
    }
}

/// A feature just added is there with its operation, and one whose operation is
/// replaced has the new one.
proof fn lemma_operation(m: ModelerModel, id: FeatureId, name: Seq<char>, kind: KindModel)
    requires
        m.doc.history.well_formed(),
    ensures
        m.doc.history.next_id < u64::MAX ==> operation(
            ModelerModel { doc: m.doc.added(name, kind), ..m },
            FeatureId(m.doc.history.next_id),
        ) == Some(kind),
        operation(m, id) is Some ==> operation(m.with_kind(id, kind), id) == Some(kind),
{
    let h = m.doc.history;
    let at = m.doc.active_len() as int;
    if h.next_id < u64::MAX {
        crate::history_laws::law_new_ids_are_fresh(h, at, name, kind);
    }
    crate::history::lemma_position(h.features, id, 0);
    if let Some(i) = h.index(id) {
        let after = h.with_kind(id, kind).features;
        crate::history::lemma_position(after, id, 0);
        assert(after[i].id == id);
        assert forall|j: int| 0 <= j < i implies (#[trigger] after[j]).id != id by {
            assert(after[j] == h.features[j]);
        }
    }
}

/// A body goes where it is dragged: after a step of a gizmo drag, the drag's feature
/// moves the dragged body by the very way of the step, or turns it by the very angle
/// about the very axis, through the point that the drag is pinned to.
pub proof fn law_a_body_goes_where_it_is_dragged(m: ModelerModel, delta: TransformDelta)
    requires
        m.doc.history.well_formed(),
        m.doc.history.next_id < u64::MAX,
        m.transform matches Some(t) && (t.feature matches Some(id) ==> operation(m, id) is Some),
    ensures
        ({
            let before = m.transform->Some_0;
            let after = m.transformed(delta);
            &&& after.transform matches Some(now)
            &&& now.source == before.source
            &&& now.pivot == before.pivot
            &&& now.feature matches Some(id)
            &&& before.feature matches Some(was) ==> id == was
            &&& match delta {
                TransformDelta::Translate(way) => operation(after, id) matches Some(
                    KindModel::Translate { source, offset },
                ) && source == before.source && offset.x == way.x && offset.y == way.y && offset.z
                    == way.z,
                TransformDelta::Rotate { axis: turned_about, angle: turned_by } => operation(
                    after,
                    id,
                ) matches Some(KindModel::Rotate { source, axis, angle, center }) && source
                    == before.source && axis == turned_about && angle == turned_by && (
                before.pivot matches Some(p) ==> center == p) && (before.pivot is None ==> center
                    == crate::scalar::zero_vector()),
            }
        }),
{
    let t = m.transform->Some_0;
    let kind = crate::drags::delta_kind(t, delta);
    let id = match t.feature {
        Some(id) => id,
        None => FeatureId(m.doc.history.next_id),
    };
    lemma_operation(m.saved(), id, crate::drags::delta_name(delta), kind);
    lemma_operation(m, id, crate::drags::delta_name(delta), kind);
}

/// What is shown beside the gizmo is what was dragged last.
pub proof fn law_the_readout_tells_the_drag(m: ModelerModel, delta: TransformDelta)
    requires
        m.doc.history.well_formed(),
        m.doc.history.next_id < u64::MAX,
        m.transform matches Some(t) && (t.feature matches Some(id) ==> operation(m, id) is Some),
    ensures
        match delta {
            TransformDelta::Translate(way) => m.transformed(delta).readout() == Some(
                crate::drags::Readout::Offset(way),
            ),
            TransformDelta::Rotate { angle, .. } => m.transformed(delta).readout() == Some(
                crate::drags::Readout::Angle(angle),
            ),
        },
{
    law_a_body_goes_where_it_is_dragged(m, delta);
}

/// Grabbing a handle takes hold of the selected body and nothing else; turning is
/// pinned to the middle of its box, moving is not.
pub proof fn law_a_handle_takes_the_selected_body(m: ModelerModel, handle: GizmoHandle)
    ensures
        m.transform_start(handle) is Some == m.selected_body() is Some,
        m.transform_start(handle) matches Some(t) ==> {
            &&& Some(t.source) == m.selected_body()
            &&& t.feature is None
            &&& handle is RotateAxis && m.selection.lone_face() ==> (m.box_of(t.source) matches Some(
                b,
            ) ==> t.pivot == Some(b.center))
            &&& !(handle is RotateAxis) ==> t.pivot is None
        },
{
}

/// A face goes where it is pushed: after a step, the drag's feature pushes the grabbed
/// face of the grabbed body by the very distance of the step.
pub proof fn law_a_face_goes_where_it_is_pushed(m: ModelerModel, by: Scalar)
    requires
        m.doc.history.well_formed(),
        m.doc.history.next_id < u64::MAX,
        m.manipulation matches Some(d) && (d.feature matches Some(id) ==> operation(m, id)
            matches Some(KindModel::PushPull { source, anchor, .. }) && source == d.source && anchor
            == d.anchor),
    ensures
        ({
            let before = m.manipulation->Some_0;
            let after = m.pushed(by);
            &&& after.manipulation matches Some(now)
            &&& now.source == before.source
            &&& now.anchor == before.anchor
            &&& now.feature matches Some(id)
            &&& before.feature matches Some(was) ==> id == was
            &&& operation(after, id) matches Some(KindModel::PushPull { source, anchor, distance })
            &&& source == before.source
            &&& anchor == before.anchor
            &&& distance == by
        }),
{
    let d = m.manipulation->Some_0;
    let kind = KindModel::PushPull { source: d.source, anchor: d.anchor, distance: by };
    let id = match d.feature {
        Some(id) => id,
        None => FeatureId(m.doc.history.next_id),
    };
    lemma_operation(m.saved(), id, "Push/Pull"@, kind);
    lemma_operation(m, id, "Push/Pull"@, kind);
}

/// A pressed face is pushed where it was pressed and toward the eye: its normal is the
/// face's own, or the opposite one if the face's points away.
pub proof fn law_a_face_is_pushed_toward_the_eye(
    m: ModelerModel,
    pick: Pick,
    point: DVec3,
    normal: Option<DVec3>,
    facing: Scalar,
)
    ensures
        m.push_start(pick, point, normal, facing) is Some == (pick is Face && normal is Some
            && m.body_of(pick) is Some),
        m.push_start(pick, point, normal, facing) matches Some(d) ==> {
            let n = normal->Some_0;
            &&& Some(d.source) == m.body_of(pick)
            &&& d.anchor.point == point
            &&& d.feature is None
            &&& if !facing.nan() && facing.rank() < 0 {
                &&& d.anchor.normal.x.flipped() == n.x && d.anchor.normal.x != n.x
                &&& d.anchor.normal.y.flipped() == n.y && d.anchor.normal.y != n.y
                &&& d.anchor.normal.z.flipped() == n.z && d.anchor.normal.z != n.z
            } else {
                d.anchor.normal == n
            }
        },
{
}

/// Two vectors differ along one axis at most.
pub open spec fn same_but_along(a: DVec3, b: DVec3, axis: Axis3) -> bool {
    &&& axis != Axis3::X ==> a.x == b.x
    &&& axis != Axis3::Y ==> a.y == b.y
    &&& axis != Axis3::Z ==> a.z == b.z
}

/// What a vector measures along an axis.
pub open spec fn measure(v: DVec3, axis: Axis3) -> Scalar {
    if axis == Axis3::X {
        v.x
    } else if axis == Axis3::Y {
        v.y
    } else {
        v.z
    }
}

/// The number is the wanted one, or the least allowed where the wanted one is below it
/// or is none.
pub open spec fn wanted_or_least(value: Scalar, wanted: Scalar, least: Scalar) -> bool {
    if wanted.nan() || wanted.rank() < least.rank() {
        value == least
    } else {
        value == wanted
    }
}

/// A grip is pulled along one axis: a box then measures the wanted size there, a tenth
/// of a millimetre at the least, and as before along the others. A cylinder pulled
/// along its axis has the wanted height and its radius, pulled across it the wanted
/// radius and its height; a sphere has the wanted radius.
pub proof fn law_a_primitive_is_resized_along_the_axis(
    m: ModelerModel,
    axis: Axis3,
    extent: Scalar,
    derived: Derived,
    gap: DVec3,
)
    requires
        m.doc.history.well_formed(),
        m.resize matches Some(r) && crate::modeler_laws::edits(
            r.mode,
            m.kind_behind(r.source),
        ) && r.mode != ResizeMode::EditScale && operation(m, r.source) is Some,
        m.resizes(axis, extent, derived, gap),
    ensures
        ({
            let id = m.resize->Some_0.source;
            let least = crate::drags::least_size();
            match (operation(m, id), operation(m.resized(axis, extent, derived, gap), id)) {
                (Some(KindModel::Box { size: was }), Some(KindModel::Box { size })) => {
                    &&& same_but_along(size, was, axis)
                    &&& wanted_or_least(measure(size, axis), extent, least)
                },
                (
                    Some(KindModel::Cylinder { radius: r1, height: h1 }),
                    Some(KindModel::Cylinder { radius, height }),
                ) => if axis == Axis3::Z {
                    radius == r1 && wanted_or_least(height, extent, least)
                } else {
                    height == h1 && wanted_or_least(radius, derived.offset, least)
                },
                (Some(KindModel::Sphere { .. }), Some(KindModel::Sphere { radius }))
                    => wanted_or_least(radius, derived.offset, least),
                _ => false,
            }
        }),
{
    let r = m.resize->Some_0;
    let to = m.goal(axis, extent, derived)->Some_0.to;
    let kind = match m.kind_behind(r.source) {
        KindModel::Box { .. } => KindModel::Box { size: to },
        KindModel::Cylinder { .. } => KindModel::Cylinder { radius: to.x, height: to.z },
        _ => KindModel::Sphere { radius: to.x },
    };
    lemma_operation(m, r.source, seq![], kind);
    lemma_operation(m.saved(), r.source, seq![], kind);
}

/// A grip is pulled along one axis: the scale of any other body then has the wanted
/// factor there, and along the others the factors it had when it was grabbed, which
/// are one for a body not scaled before. It scales the grabbed body about the point
/// that was to stay.
pub proof fn law_a_body_is_scaled_along_the_axis(
    m: ModelerModel,
    axis: Axis3,
    extent: Scalar,
    derived: Derived,
    gap: DVec3,
)
    requires
        m.doc.history.well_formed(),
        m.doc.history.next_id < u64::MAX,
        m.resize matches Some(r) && match (r.mode, r.feature) {
            (ResizeMode::NewScale, None) => true,
            (ResizeMode::NewScale, Some(id)) => operation(m, id) matches Some(
                KindModel::Scale { source, anchor, .. },
            ) && source == r.source && anchor == r.anchor,
            (ResizeMode::EditScale, _) => operation(m, r.source) matches Some(
                KindModel::Scale { .. },
            ),
            _ => false,
        },
        m.resizes(axis, extent, derived, gap),
    ensures
        ({
            let r = m.resize->Some_0;
            let after = m.resized(axis, extent, derived, gap);
            let now = after.resize->Some_0;
            let one = Scalar { bits: 0x3ff0_0000_0000_0000 };
            if r.mode == ResizeMode::NewScale {
                &&& now.feature matches Some(id)
                &&& operation(after, id) matches Some(KindModel::Scale { source, factors, anchor })
                &&& source == r.source
                &&& anchor == r.anchor
                &&& same_but_along(factors, (DVec3 { x: one, y: one, z: one }), axis)
                &&& wanted_or_least(
                    measure(factors, axis),
                    derived.ratio,
                    crate::drags::tenth_milli(),
                )
            } else {
                &&& operation(m, r.source) matches Some(KindModel::Scale { source: s, anchor: a, .. })
                &&& operation(after, r.source) matches Some(
                    KindModel::Scale { source, factors, anchor },
                )
                &&& source == s
                &&& anchor == a
                &&& same_but_along(factors, r.base_factors, axis)
                &&& measure(factors, axis) == derived.product
            }
        }),
{
    let r = m.resize->Some_0;
    let to = m.goal(axis, extent, derived)->Some_0.to;
    let added = KindModel::Scale { source: r.source, factors: to, anchor: r.anchor };
    let id = match r.feature {
        Some(id) => id,
        None => FeatureId(m.doc.history.next_id),
    };
    lemma_operation(m.saved(), id, "Resize"@, added);
    lemma_operation(m, id, "Resize"@, added);
    if let Some(KindModel::Scale { source, anchor, .. }) = operation(m, r.source) {
        let edited = KindModel::Scale { source, factors: to, anchor };
        lemma_operation(m, r.source, seq![], edited);
        lemma_operation(m.saved(), r.source, seq![], edited);
    }
}

/// A grip takes hold of the selected body as it is: a box by its size, a cylinder or
/// sphere by its diameters, a scale by its factors and its own fixed point, and any
/// other body by its box, whose lowest corner is to stay.
pub proof fn law_a_grip_takes_the_body_as_it_is(m: ModelerModel, doubled: Scalar)
    ensures
        m.resize_start(doubled) is Some == (m.selected_body() matches Some(body) && m.box_of(
            body,
        ) is Some),
        m.resize_start(doubled) matches Some(r) ==> {
            let b = m.box_of(r.source)->Some_0;
            let one = Scalar { bits: 0x3ff0_0000_0000_0000 };
            &&& Some(r.source) == m.selected_body()
            &&& r.feature is None
            &&& !r.changed
            &&& match operation(m, r.source) {
                Some(KindModel::Box { size }) => r.mode == ResizeMode::BoxDim && r.base_extent
                    == size,
                Some(KindModel::Cylinder { height, .. }) => r.mode == ResizeMode::CylDim
                    && r.base_extent.x == doubled && r.base_extent.y == doubled && r.base_extent.z
                    == height,
                Some(KindModel::Sphere { .. }) => r.mode == ResizeMode::SphereDim
                    && r.base_extent.x == doubled && r.base_extent.y == doubled && r.base_extent.z
                    == doubled,
                Some(KindModel::Scale { factors, anchor, .. }) => r.mode == ResizeMode::EditScale
                    && r.base_factors == factors && r.anchor == anchor && r.base_extent == b.extent,
                _ => r.mode == ResizeMode::NewScale && r.base_extent == b.extent && r.anchor
                    == b.min && r.base_factors == (DVec3 { x: one, y: one, z: one }),
            }
        },
{
}

/// A step of a resize changes nothing exactly if no size changes by more than a
/// billionth, or if the body has no thickness along the axis.
pub proof fn law_when_a_resize_changes_something(
    m: ModelerModel,
    axis: Axis3,
    extent: Scalar,
    derived: Derived,
    gap: DVec3,
)
    requires
        m.resize matches Some(r) && (r.mode == ResizeMode::EditScale || r.mode
            == ResizeMode::NewScale || crate::modeler_laws::edits(
            r.mode,
            m.kind_behind(r.source),
        ) && operation(m, r.source) is Some),
    ensures
        ({
            let r = m.resize->Some_0;
            let nano = crate::drags::nano();
            let far = |v: Scalar| v.nan() || nano.rank() < v.rank();
            let thin = measure(r.base_extent, axis);
            let moves = far(gap.x) || far(gap.y) || far(gap.z);
            let near = |v: Scalar| !v.nan() && v.rank() < nano.rank();
            match r.mode {
                ResizeMode::BoxDim => m.resizes(axis, extent, derived, gap) == moves,
                ResizeMode::NewScale => m.resizes(axis, extent, derived, gap) == (!thin.less(
                    crate::drags::micro(),
                ) && (r.feature is Some || moves)),
                ResizeMode::EditScale => m.resizes(axis, extent, derived, gap) == (!thin.less(
                    crate::drags::micro(),
                ) && moves),
                ResizeMode::CylDim => m.resizes(axis, extent, derived, gap) == !(near(gap.x)
                    && near(gap.z)),
                ResizeMode::SphereDim => m.resizes(axis, extent, derived, gap) == !near(gap.x),
            }
        }),
        !m.resizes(axis, extent, derived, gap) ==> m.resized(axis, extent, derived, gap) == m,
{
}

/// A number without its sign lies below a limit.
pub open spec fn is_below(value: Scalar, limit: Scalar) -> bool {
    !value.nan() && value.magnitude() < limit.rank()
}

/// A push let go of stays as it is, unless the face came less than a thousandth of a
/// millimetre far: then it is as if it had been called off.
pub proof fn law_a_push_stays_unless_it_came_to_nothing(m: ModelerModel)
    requires
        m.manipulation matches Some(d) && (d.feature matches Some(id) ==> operation(m, id)
            matches Some(KindModel::PushPull { .. })),
    ensures
        ({
            let d = m.manipulation->Some_0;
            let kept = ModelerModel { manipulation: None, ..m };
            match d.feature {
                None => m.push_ended(true) == kept && m.push_ended(false) == kept,
                Some(id) => {
                    let far = operation(m, id)->Some_0->PushPull_distance;
                    m.push_ended(true) == (if is_below(far, crate::drags::milli()) {
                        m.push_ended(false)
                    } else {
                        kept
                    })
                },
            }
        }),
{
}

/// A gizmo drag let go of stays as it is, unless the body was moved less than a
/// thousandth of a millimetre or turned less than a ten-thousandth of a radian: then
/// it is as if it had been called off.
pub proof fn law_a_transform_stays_unless_it_came_to_nothing(m: ModelerModel, length: Scalar)
    requires
        m.transform is Some,
        !length.nan(),
    ensures
        ({
            let kept = ModelerModel { transform: None, ..m };
            match m.transform->Some_0.feature {
                None => m.transform_ended(true, length) == kept,
                Some(id) => match operation(m, id) {
                    Some(KindModel::Translate { .. }) => m.transform_ended(true, length) == (
                    if length.rank() < crate::drags::milli().rank() {
                        m.transform_ended(false, length)
                    } else {
                        kept
                    }),
                    Some(KindModel::Rotate { angle, .. }) => !angle.nan() ==> m.transform_ended(
                        true,
                        length,
                    ) == (if is_below(angle, crate::drags::tenth_milli()) {
                        m.transform_ended(false, length)
                    } else {
                        kept
                    }),
                    _ => m.transform_ended(true, length) == kept,
                },
            }
        }),
{
}

/// A resize let go of stays as it is, unless it added a scale whose factors are all
/// within a millionth of one: then it is as if it had been called off.
pub proof fn law_a_resize_stays_unless_it_came_to_nothing(
    m: ModelerModel,
    halved: Scalar,
    gap: DVec3,
)
    requires
        m.resize is Some,
    ensures
        ({
            let r = m.resize->Some_0;
            let kept = ModelerModel { resize: None, ..m };
            let near = |v: Scalar| !v.nan() && v.rank() <= crate::drags::micro().rank();
            let idle = r.mode == ResizeMode::NewScale && r.changed && (r.feature matches Some(id)
                && (operation(m, id) matches Some(KindModel::Scale { .. }) ==> near(gap.x) && near(
                gap.y,
            ) && near(gap.z)));
            m.resize_ended(true, halved, gap) == (if idle {
                m.resize_ended(false, halved, gap)
            } else {
                kept
            })
        }),
{
}

} // verus!
