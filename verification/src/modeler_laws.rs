//! What holds of the modeler as a whole.

use crate::document::DocumentModel;
use crate::drags::{Derived, Manipulation, ResizeDrag, ResizeMode, TransformDelta, TransformDrag};
use crate::features::{BooleanOp, FeatureId, FeatureModel, KindModel};
use crate::history::HistoryModel;
use crate::modeler::{ModelerModel, UNDO_LIMIT};
use crate::scalar::{DVec3, Scalar};
use crate::selection::Pick;
use crate::sketch::SketchPlane;
use crate::viewport::Axis3;
use vstd::prelude::*;

verus! {

/// Undoing and then redoing changes nothing, and neither does redoing and then
/// undoing.
pub proof fn law_undo_and_redo_are_inverse(m: ModelerModel)
    ensures
        m.undo.len() > 0 ==> m.undone().redone() == m,
        m.redo.len() > 0 ==> m.redone().undone() == m,
{
    if m.undo.len() > 0 {
        assert(m.undone().redone() =~= m);
    }
    if m.redo.len() > 0 {
        assert(m.redone().undone() =~= m);
    }
}

/// An edit that kept the document for undo is undone by going back once, and
/// leaves nothing to redo.
pub proof fn law_an_edit_can_be_undone(m: ModelerModel, after: DocumentModel)
    ensures
        ({
            let edited = ModelerModel { doc: after, ..m.saved() };
            &&& edited.undone().doc == m.doc
            &&& edited.undone().redone().doc == after
            &&& edited.redo.len() == 0
        }),
{
}

/// Never more states are kept than the limit, undone ones among them.
pub proof fn law_undo_is_bounded(m: ModelerModel, before: DocumentModel)
    requires
        m.undo.len() + m.redo.len() <= UNDO_LIMIT,
    ensures
        m.recorded(before).undo.len() + m.recorded(before).redo.len() <= UNDO_LIMIT,
        m.undone().undo.len() + m.undone().redo.len() <= UNDO_LIMIT,
        m.redone().undo.len() + m.redone().redo.len() <= UNDO_LIMIT,
        m.unrecorded().undo.len() + m.unrecorded().redo.len() <= UNDO_LIMIT,
{
}

/// A frame of the panel that leaves the document as given. A document is kept from
/// before it unless an edit is under way.
pub open spec fn framed(m: ModelerModel, after: DocumentModel) -> ModelerModel {
    let before = if m.editing {
        None
    } else {
        Some(m.doc)
    };
    (ModelerModel { doc: after, ..m }).panel_closed(before, true)
}

/// A frame of the panel that changes nothing keeps nothing, and ends an edit that was
/// under way.
pub proof fn law_an_idle_frame_ends_the_edit(m: ModelerModel, before: Option<DocumentModel>)
    ensures
        ({
            let now = m.panel_closed(before, false);
            now.doc == m.doc && now.undo == m.undo && now.redo == m.redo && !now.editing
        }),
{
}

/// Frames of the panel in a row, each changing the document.
pub open spec fn frames(m: ModelerModel, docs: Seq<DocumentModel>) -> ModelerModel
    decreases docs.len(),
{
    if docs.len() == 0 {
        m
    } else {
        framed(frames(m, docs.drop_last()), docs.last())
    }
}

/// A continuous edit in the panel, however many frames it takes, is one undo
/// entry, and undoing it gives back the document from before.
pub proof fn law_a_continuous_edit_is_one_entry(m: ModelerModel, docs: Seq<DocumentModel>)
    requires
        !m.editing,
        docs.len() > 0,
    ensures
        frames(m, docs).undo == m.saved().undo,
        frames(m, docs).doc == docs.last(),
        frames(m, docs).editing,
        frames(m, docs).undone().doc == m.doc,
    decreases docs.len(),
{
    if docs.len() > 1 {
        law_a_continuous_edit_is_one_entry(m, docs.drop_last());
    } else {
        assert(docs.drop_last() =~= seq![]);
        assert(frames(m, docs.drop_last()) == m);
    }
}

/// A feature just added stands where it was inserted.
proof fn lemma_fresh_position(h: HistoryModel, at: int, name: Seq<char>, kind: KindModel)
    requires
        h.well_formed(),
        0 <= at <= h.features.len(),
    ensures
        h.inserted(at, name, kind).index(FeatureId(h.next_id)) == Some(at),
        h.index(FeatureId(h.next_id)) is None,
{
    let id = FeatureId(h.next_id);
    let after = h.inserted(at, name, kind).features;
    crate::history::lemma_position(h.features, id, 0);
    crate::history::lemma_position(after, id, 0);
    assert(after[at].id == id);
    assert forall|j: int| 0 <= j < at implies (#[trigger] after[j]).id != id by {
        assert(after[j] == h.features[j]);
    }
}

/// Adding a feature, changing its operation and removing it again leaves the
/// features as they were.
proof fn lemma_add_and_remove(
    h: HistoryModel,
    at: int,
    name: Seq<char>,
    first: KindModel,
    last: KindModel,
)
    requires
        h.well_formed(),
        h.references_given(),
        0 <= at <= h.features.len(),
    ensures
        h.inserted(at, name, first).with_kind(FeatureId(h.next_id), last).without(
            FeatureId(h.next_id),
        ).features == h.features,
        h.inserted(at, name, first).without(FeatureId(h.next_id)).features == h.features,
        h.inserted(at, name, first).with_kind(FeatureId(h.next_id), last) == h.inserted(
            at,
            name,
            last,
        ),
{
    let id = FeatureId(h.next_id);
    lemma_fresh_position(h, at, name, first);
    lemma_fresh_position(h, at, name, last);
    assert(h.inserted(at, name, first).with_kind(id, last).features =~= h.inserted(
        at,
        name,
        last,
    ).features);
    lemma_remove_fresh(h, at, name, first);
    lemma_remove_fresh(h, at, name, last);
}

/// Removing a feature just added leaves the features as they were: nothing refers
/// to it.
proof fn lemma_remove_fresh(h: HistoryModel, at: int, name: Seq<char>, kind: KindModel)
    requires
        h.well_formed(),
        h.references_given(),
        0 <= at <= h.features.len(),
    ensures
        h.inserted(at, name, kind).removed(at).features == h.features,
{
    let id = FeatureId(h.next_id);
    let after = h.inserted(at, name, kind);
    assert(after.features.remove(at) =~= h.features);
    assert forall|i: int| 0 <= i < h.features.len() implies #[trigger] after.removed(at).features[i]
        == h.features[i] by {
        if let Some(p) = kind.primary_input() {
            let f = h.features[i];
            assert forall|k: int| 0 <= k < f.kind.inputs().len() implies #[trigger] f.kind.inputs()[k]
                != id by {
                assert(h.features[i].kind.inputs()[k].0 < h.next_id);
            }
            lemma_remap_of_strangers(f.kind, id, p);
            assert(after.features.remove(at)[i] == f);
        }
    }
    assert(after.removed(at).features =~= h.features);
}

/// An operation that does not refer to a feature is not changed by rewiring it.
proof fn lemma_remap_of_strangers(kind: KindModel, from: FeatureId, to: FeatureId)
    requires
        forall|k: int| 0 <= k < kind.inputs().len() ==> #[trigger] kind.inputs()[k] != from,
    ensures
        kind.remapped(from, to) == kind,
{
    let inputs = kind.inputs();
    match kind {
        KindModel::Group { members } => {
            let f = crate::features::swapping(from, to);
            assert forall|k: int| 0 <= k < members.len() implies #[trigger] members.map_values(f)[k]
                == members[k] by {
                assert(inputs[k] != from);
            }
            assert(members.map_values(f) =~= members);
        },
        KindModel::Boolean { .. } => {
            assert(inputs[0] != from && inputs[1] != from);
        },
        _ => {
            if inputs.len() > 0 {
                assert(inputs[0] != from);
            }
        },
    }
}

/// The document is fit to be edited: ids are distinct, references are to ids that
/// were handed out, and there is one more to hand out.
pub open spec fn editable(doc: DocumentModel) -> bool {
    doc.history.well_formed() && doc.history.references_given() && doc.history.next_id < u64::MAX
}

/// The document is fit to be edited and every reference points backward.
pub open spec fn orderly(doc: DocumentModel) -> bool {
    doc.history.well_formed() && crate::history::sound(doc.history.features)
        && doc.history.next_id < u64::MAX
}

/// The document after a drag that was called off: the features it had, and the bar
/// where the dragged feature left it, one further than before.
pub open spec fn called_off(before: DocumentModel, after: DocumentModel) -> bool {
    &&& after.history.features == before.history.features
    &&& after.bar == before.active_len() + 1
}

/// A face pushed to one distance after another.
pub open spec fn pushes(m: ModelerModel, distances: Seq<Scalar>) -> ModelerModel
    decreases distances.len(),
{
    if distances.len() == 0 {
        m
    } else {
        pushes(m, distances.drop_last()).pushed(distances.last())
    }
}

/// A push or pull, however far it wanders, is one feature with the last distance
/// and one undo entry.
pub proof fn law_a_push_is_one_feature(m: ModelerModel, distances: Seq<Scalar>)
    requires
        editable(m.doc),
        m.manipulation matches Some(d) && d.feature is None,
        distances.len() > 0,
    ensures
        ({
            let d = m.manipulation->Some_0;
            let after = pushes(m, distances);
            &&& after.doc == m.doc.added(
                "Push/Pull"@,
                KindModel::PushPull {
                    source: d.source,
                    anchor: d.anchor,
                    distance: distances.last(),
                },
            )
            &&& after.undo == m.saved().undo
            &&& after.manipulation == Some(
                Manipulation { feature: Some(FeatureId(m.doc.history.next_id)), ..d },
            )
        }),
    decreases distances.len(),
{
    let d = m.manipulation->Some_0;
    let h = m.doc.history;
    let at = m.doc.active_len() as int;
    let rest = distances.drop_last();
    if rest.len() == 0 {
        assert(pushes(m, rest) == m);
    } else {
        law_a_push_is_one_feature(m, rest);
        let first = KindModel::PushPull {
            source: d.source,
            anchor: d.anchor,
            distance: rest.last(),
        };
        let last = KindModel::PushPull {
            source: d.source,
            anchor: d.anchor,
            distance: distances.last(),
        };
        lemma_add_and_remove(h, at, "Push/Pull"@, first, last);
        lemma_fresh_position(h, at, "Push/Pull"@, first);
        assert(pushes(m, distances).doc =~= m.doc.added("Push/Pull"@, last));
    }
}

/// A push or pull that is called off leaves the features as they were and takes
/// its undo entry with it, unless the oldest one had to make room for it. With the
/// bar at the tip, as much is active as before; a bar that was pulled back ends one
/// further on.
pub proof fn law_a_cancelled_push_leaves_nothing(m: ModelerModel, distances: Seq<Scalar>)
    requires
        editable(m.doc),
        m.manipulation matches Some(d) && d.feature is None,
    ensures
        ({
            let after = pushes(m, distances).push_ended(false);
            &&& after.doc.history.features == m.doc.history.features
            &&& after.manipulation is None
            &&& m.undo.len() < UNDO_LIMIT ==> after.undo == m.undo
            &&& if distances.len() == 0 {
                after.doc == m.doc
            } else {
                called_off(m.doc, after.doc)
            }
            &&& m.doc.bar >= m.doc.history.features.len() ==> after.doc.active() == m.doc.active()
        }),
{
    if distances.len() == 0 {
        assert(pushes(m, distances) == m);
    } else {
        law_a_push_is_one_feature(m, distances);
        let d = m.manipulation->Some_0;
        let kind = KindModel::PushPull {
            source: d.source,
            anchor: d.anchor,
            distance: distances.last(),
        };
        lemma_discarding(m, pushes(m, distances), "Push/Pull"@, kind);
    }
}

/// Discarding a feature just added leaves the features as they were, and the undo
/// entries too unless the oldest was dropped.
proof fn lemma_discarding(m: ModelerModel, dragged: ModelerModel, name: Seq<char>, kind: KindModel)
    requires
        editable(m.doc),
        dragged.doc == m.doc.added(name, kind),
        dragged.undo == m.saved().undo,
    ensures
        ({
            let after = dragged.discarded(FeatureId(m.doc.history.next_id));
            &&& called_off(m.doc, after.doc)
            &&& m.undo.len() < UNDO_LIMIT ==> after.undo == m.undo
            &&& m.doc.bar >= m.doc.history.features.len() ==> after.doc.active() == m.doc.active()
        }),
{
    let h = m.doc.history;
    let at = m.doc.active_len() as int;
    let id = FeatureId(h.next_id);
    lemma_fresh_position(h, at, name, kind);
    lemma_remove_fresh(h, at, name, kind);
    let after = dragged.discarded(id);
    if m.undo.len() < UNDO_LIMIT {
        assert(m.undo.push(m.doc).drop_last() =~= m.undo);
    }
}

/// A body dragged to one place after another.
pub open spec fn transforms(m: ModelerModel, deltas: Seq<TransformDelta>) -> ModelerModel
    decreases deltas.len(),
{
    if deltas.len() == 0 {
        m
    } else {
        transforms(m, deltas.drop_last()).transformed(deltas.last())
    }
}

/// A gizmo drag, however far it wanders, is one feature with the last offset or
/// angle, named after the first, and one undo entry.
pub proof fn law_a_transform_is_one_feature(m: ModelerModel, deltas: Seq<TransformDelta>)
    requires
        editable(m.doc),
        m.transform matches Some(t) && t.feature is None,
        deltas.len() > 0,
    ensures
        ({
            let t = m.transform->Some_0;
            let after = transforms(m, deltas);
            &&& after.doc == m.doc.added(
                crate::drags::delta_name(deltas[0]),
                crate::drags::delta_kind(t, deltas.last()),
            )
            &&& after.undo == m.saved().undo
            &&& after.session == m.session
            &&& after.transform == Some(
                TransformDrag { feature: Some(FeatureId(m.doc.history.next_id)), ..t },
            )
        }),
    decreases deltas.len(),
{
    let t = m.transform->Some_0;
    let h = m.doc.history;
    let at = m.doc.active_len() as int;
    let rest = deltas.drop_last();
    if rest.len() == 0 {
        assert(transforms(m, rest) == m);
    } else {
        law_a_transform_is_one_feature(m, rest);
        let name = crate::drags::delta_name(deltas[0]);
        let first = crate::drags::delta_kind(t, rest.last());
        let last = crate::drags::delta_kind(t, deltas.last());
        assert(rest[0] == deltas[0]);
        lemma_add_and_remove(h, at, name, first, last);
        lemma_fresh_position(h, at, name, first);
        assert(transforms(m, deltas).doc =~= m.doc.added(name, last));
    }
}

/// A gizmo drag that is called off leaves the features as they were and takes its
/// undo entry with it, unless the oldest one had to make room for it. With the bar
/// at the tip, as much is active as before; a bar that was pulled back ends one
/// further on.
pub proof fn law_a_cancelled_transform_leaves_nothing(
    m: ModelerModel,
    deltas: Seq<TransformDelta>,
    length: Scalar,
)
    requires
        editable(m.doc),
        m.transform matches Some(t) && t.feature is None,
    ensures
        ({
            let after = transforms(m, deltas).transform_ended(false, length);
            &&& after.doc.history.features == m.doc.history.features
            &&& after.transform is None
            &&& m.undo.len() < UNDO_LIMIT ==> after.undo == m.undo
            &&& if deltas.len() == 0 {
                after.doc == m.doc
            } else {
                called_off(m.doc, after.doc)
            }
            &&& m.doc.bar >= m.doc.history.features.len() ==> after.doc.active() == m.doc.active()
        }),
{
    if deltas.len() == 0 {
        assert(transforms(m, deltas) == m);
    } else {
        law_a_transform_is_one_feature(m, deltas);
        lemma_discarding(
            m,
            transforms(m, deltas),
            crate::drags::delta_name(deltas[0]),
            crate::drags::delta_kind(m.transform->Some_0, deltas.last()),
        );
    }
}

/// While a body is turned, the gizmo stays where the body's centre was when the
/// ring was grabbed.
pub proof fn law_the_gizmo_is_pinned(
    m: ModelerModel,
    axis: Axis3,
    deltas: Seq<TransformDelta>,
)
    requires
        editable(m.doc),
        m.session is None,
        m.transform is None,
        m.gizmo() is Some,
        deltas.len() > 0,
    ensures
        ({
            let grabbed = ModelerModel {
                transform: m.transform_start(crate::viewport::GizmoHandle::RotateAxis(axis)),
                ..m
            };
            transforms(grabbed, deltas).gizmo() == m.gizmo()
        }),
{
    let grabbed = ModelerModel {
        transform: m.transform_start(crate::viewport::GizmoHandle::RotateAxis(axis)),
        ..m
    };
    law_a_transform_is_one_feature(grabbed, deltas);
}

/// A step of a resize.
pub struct ResizeStep {
    pub axis: Axis3,
    pub extent: Scalar,
    pub derived: Derived,
    pub gap: DVec3,
}

/// A body resized step by step.
pub open spec fn resizes(m: ModelerModel, steps: Seq<ResizeStep>) -> ModelerModel
    decreases steps.len(),
{
    if steps.len() == 0 {
        m
    } else {
        let s = steps.last();
        resizes(m, steps.drop_last()).resized(s.axis, s.extent, s.derived, s.gap)
    }
}

/// The operation is of the sort that is edited in place in the given mode.
pub open spec fn edits(mode: ResizeMode, kind: KindModel) -> bool {
    match mode {
        ResizeMode::BoxDim => kind is Box,
        ResizeMode::CylDim => kind is Cylinder,
        ResizeMode::SphereDim => kind is Sphere,
        ResizeMode::EditScale => kind is Scale,
        ResizeMode::NewScale => false,
    }
}

/// Editing in place changes the one feature and nothing else of the document: its
/// operation stays of the same sort with the same inputs, no feature is added, and
/// the whole drag is at most one undo entry.
pub proof fn law_resizing_in_place_adds_nothing(m: ModelerModel, steps: Seq<ResizeStep>)
    requires
        m.resize matches Some(r) && !r.changed && edits(r.mode, m.kind_behind(r.source)),
        m.doc.history.index(m.resize->Some_0.source) is Some,
    ensures
        ({
            let r = m.resize->Some_0;
            let after = resizes(m, steps);
            let i = m.doc.history.index(r.source)->Some_0;
            &&& after.resize matches Some(now) && now == (ResizeDrag { changed: now.changed, ..r })
            &&& after.undo == (if after.resize->Some_0.changed {
                m.saved().undo
            } else {
                m.undo
            })
            &&& !after.resize->Some_0.changed ==> after.doc == m.doc
            &&& edits(r.mode, after.kind_behind(r.source))
            &&& after.kind_behind(r.source).inputs() == m.kind_behind(r.source).inputs()
            &&& r.mode == ResizeMode::EditScale ==> after.kind_behind(r.source)->Scale_anchor
                == m.kind_behind(r.source)->Scale_anchor
            &&& after.doc == (DocumentModel {
                history: m.doc.history.with_kind(r.source, after.kind_behind(r.source)),
                ..m.doc
            })
            &&& after.doc.history.index(r.source) == Some(i)
        }),
    decreases steps.len(),
{
    let r = m.resize->Some_0;
    let h = m.doc.history;
    crate::history::lemma_position(h.features, r.source, 0);
    let i = h.index(r.source)->Some_0;
    assert(h.features.update(
        i,
        FeatureModel { kind: h.features[i].kind, ..h.features[i] },
    ) =~= h.features);
    if steps.len() == 0 {
        assert(resizes(m, steps) == m);
    } else {
        let before = resizes(m, steps.drop_last());
        let after = resizes(m, steps);
        law_resizing_in_place_adds_nothing(m, steps.drop_last());
        let s = steps.last();
        let now = before.kind_behind(r.source);
        if before.resizes(s.axis, s.extent, s.derived, s.gap) {
            let to = before.goal(s.axis, s.extent, s.derived)->Some_0.to;
            let kind = match now {
                KindModel::Box { .. } => KindModel::Box { size: to },
                KindModel::Cylinder { .. } => KindModel::Cylinder { radius: to.x, height: to.z },
                KindModel::Sphere { .. } => KindModel::Sphere { radius: to.x },
                KindModel::Scale { source, anchor, .. } => KindModel::Scale {
                    source,
                    factors: to,
                    anchor,
                },
                _ => now,
            };
            assert(after.doc.history == before.doc.history.with_kind(r.source, kind));
            lemma_kind_replaced(h, r.source, now, kind);
        }
    }
}

/// Replacing an operation twice leaves the second.
proof fn lemma_kind_replaced(h: HistoryModel, id: FeatureId, first: KindModel, second: KindModel)
    requires
        h.index(id) is Some,
    ensures
        h.with_kind(id, first).index(id) == h.index(id),
        h.with_kind(id, first).kind_of(id) == Some(first),
        h.with_kind(id, first).with_kind(id, second) == h.with_kind(id, second),
        h.with_kind(id, second).index(id) == h.index(id),
        h.with_kind(id, second).kind_of(id) == Some(second),
{
    crate::history::lemma_position(h.features, id, 0);
    let i = h.index(id)->Some_0;
    let once = h.with_kind(id, first);
    let other = h.with_kind(id, second);
    lemma_updated_position(h.features, i, id, once.features[i]);
    lemma_updated_position(h.features, i, id, other.features[i]);
    assert(once.with_kind(id, second).features =~= other.features);
}

/// Changing a feature but not its id leaves it in its place.
proof fn lemma_updated_position(
    features: Seq<FeatureModel>,
    i: int,
    id: FeatureId,
    f: FeatureModel,
)
    requires
        crate::history::position(features, id, 0) == Some(i),
        f.id == id,
    ensures
        crate::history::position(features.update(i, f), id, 0) == Some(i),
{
    crate::history::lemma_position(features, id, 0);
    let after = features.update(i, f);
    crate::history::lemma_position(after, id, 0);
    assert(after[i].id == id);
    assert forall|j: int| 0 <= j < i implies (#[trigger] after[j]).id != id by {
        assert(after[j] == features[j]);
    }
}

impl ModelerModel {
    /// The operation of a feature in the history.
    pub open spec fn kind_behind(self, id: FeatureId) -> KindModel {
        self.doc.history.kind_of(id)->Some_0
    }
}

/// A body that is neither a bare primitive nor scaled gets one scale feature when
/// it is resized, however many steps it takes, and at most one undo entry.
pub proof fn law_resizing_adds_one_scale(m: ModelerModel, steps: Seq<ResizeStep>)
    requires
        editable(m.doc),
        m.resize matches Some(r) && r.mode == ResizeMode::NewScale && r.feature is None
            && !r.changed,
    ensures
        ({
            let r = m.resize->Some_0;
            let after = resizes(m, steps);
            let id = FeatureId(m.doc.history.next_id);
            &&& after.resize matches Some(now)
            &&& if after.resize->Some_0.feature is None {
                after == m
            } else {
                &&& after.resize == Some(ResizeDrag { feature: Some(id), changed: true, ..r })
                &&& after.undo == m.saved().undo
                &&& exists|factors: DVec3|
                    after.doc == #[trigger] m.doc.added(
                        "Resize"@,
                        KindModel::Scale { source: r.source, factors, anchor: r.anchor },
                    )
            }
        }),
    decreases steps.len(),
{
    let r = m.resize->Some_0;
    let h = m.doc.history;
    let at = m.doc.active_len() as int;
    let id = FeatureId(h.next_id);
    if steps.len() > 0 {
        law_resizing_adds_one_scale(m, steps.drop_last());
        let before = resizes(m, steps.drop_last());
        let after = resizes(m, steps);
        let s = steps.last();
        if before.resizes(s.axis, s.extent, s.derived, s.gap) {
            let to = before.goal(s.axis, s.extent, s.derived)->Some_0.to;
            let kind = KindModel::Scale { source: r.source, factors: to, anchor: r.anchor };
            if before.resize->Some_0.feature is Some {
                let factors = choose|factors: DVec3|
                    before.doc == #[trigger] m.doc.added(
                        "Resize"@,
                        KindModel::Scale { source: r.source, factors, anchor: r.anchor },
                    );
                let old = KindModel::Scale { source: r.source, factors, anchor: r.anchor };
                lemma_add_and_remove(h, at, "Resize"@, old, kind);
                lemma_fresh_position(h, at, "Resize"@, old);
                assert(after.doc =~= m.doc.added("Resize"@, kind));
            } else {
                assert(after.doc == m.doc.added("Resize"@, kind));
            }
        }
    }
}

/// A scale that is called off, or that comes to nothing, leaves the features as
/// they were and takes its undo entry with it, unless the oldest one had to make
/// room for it. With the bar at the tip, as much is active as before; a bar that was
/// pulled back ends one further on.
pub proof fn law_a_cancelled_scale_leaves_nothing(
    m: ModelerModel,
    steps: Seq<ResizeStep>,
    commit: bool,
    halved: Scalar,
    gap: DVec3,
)
    requires
        editable(m.doc),
        m.resize matches Some(r) && r.mode == ResizeMode::NewScale && r.feature is None
            && !r.changed,
        !commit || crate::drags::within(gap, crate::drags::micro()),
    ensures
        ({
            let after = resizes(m, steps).resize_ended(commit, halved, gap);
            &&& after.doc.history.features == m.doc.history.features
            &&& after.resize is None
            &&& m.undo.len() < UNDO_LIMIT ==> after.undo == m.undo
            &&& if resizes(m, steps).resize->Some_0.feature is None {
                after.doc == m.doc
            } else {
                called_off(m.doc, after.doc)
            }
            &&& m.doc.bar >= m.doc.history.features.len() ==> after.doc.active() == m.doc.active()
        }),
{
    law_resizing_adds_one_scale(m, steps);
    let dragged = resizes(m, steps);
    let r = m.resize->Some_0;
    if dragged.resize->Some_0.feature is Some {
        let factors = choose|factors: DVec3|
            dragged.doc == #[trigger] m.doc.added(
                "Resize"@,
                KindModel::Scale { source: r.source, factors, anchor: r.anchor },
            );
        let kind = KindModel::Scale { source: r.source, factors, anchor: r.anchor };
        lemma_fresh_position(m.doc.history, m.doc.active_len() as int, "Resize"@, kind);
        lemma_discarding(m, dragged, "Resize"@, kind);
    }
}

/// A resize that is called off leaves the features as they were, and takes its undo
/// entry with it unless the oldest one had to make room for it: a box has its size
/// back, a cylinder or sphere its radius, provided that half of twice it is it, a
/// scale its factors, and a scale that was added is gone.
pub proof fn law_a_cancelled_resize_restores(
    m: ModelerModel,
    doubled: Scalar,
    steps: Seq<ResizeStep>,
    halved: Scalar,
    gap: DVec3,
)
    requires
        m.resize is None,
        m.resize_start(doubled) matches Some(r) && (r.mode == ResizeMode::NewScale ==> editable(
            m.doc,
        )),
        match m.kind_behind(m.selected_body()->Some_0) {
            KindModel::Cylinder { radius, .. } => halved == radius,
            KindModel::Sphere { radius } => halved == radius,
            _ => true,
        },
    ensures
        ({
            let grabbed = ModelerModel { resize: m.resize_start(doubled), ..m };
            let after = resizes(grabbed, steps).resize_ended(false, halved, gap);
            &&& after.doc.history.features == m.doc.history.features
            &&& m.resize_start(doubled)->Some_0.mode != ResizeMode::NewScale ==> after.doc == m.doc
            &&& after.resize is None
            &&& m.undo.len() < UNDO_LIMIT ==> after.undo == m.undo
        }),
{
    let r = m.resize_start(doubled)->Some_0;
    let grabbed = ModelerModel { resize: Some(r), ..m };
    if r.mode == ResizeMode::NewScale {
        law_a_cancelled_scale_leaves_nothing(grabbed, steps, false, halved, gap);
    } else {
        let h = m.doc.history;
        law_resizing_in_place_adds_nothing(grabbed, steps);
        let dragged = resizes(grabbed, steps);
        let now = dragged.kind_behind(r.source);
        let was = m.kind_behind(r.source);
        crate::history::lemma_position(h.features, r.source, 0);
        let i = h.index(r.source)->Some_0;
        lemma_kind_replaced(h, r.source, now, was);
        assert(h.with_kind(r.source, was).features =~= h.features);
        if let KindModel::Scale { source, .. } = was {
            assert(now.inputs()[0] == source);
        }
        if dragged.resize->Some_0.changed {
            let ended = dragged.resize_ended(false, halved, gap);
            assert(ended.doc.history == dragged.doc.history.with_kind(r.source, was));
        }
        if m.undo.len() < UNDO_LIMIT {
            assert(m.undo.push(m.doc).drop_last() =~= m.undo);
        }
    }
}

/// A scaled body is never scaled a second time: grabbing a grip of it edits the
/// scale it has, and no feature is added.
pub proof fn law_scales_never_stack(m: ModelerModel, doubled: Scalar, steps: Seq<ResizeStep>)
    requires
        m.resize_start(doubled) is Some,
        m.kind_behind(m.selected_body()->Some_0) is Scale,
        m.doc.history.index(m.selected_body()->Some_0) is Some,
    ensures
        ({
            let grabbed = ModelerModel { resize: m.resize_start(doubled), ..m };
            resizes(grabbed, steps).doc.history.features.len() == m.doc.history.features.len()
        }),
{
    let grabbed = ModelerModel { resize: m.resize_start(doubled), ..m };
    crate::history::lemma_position(m.doc.history.features, m.selected_body()->Some_0, 0);
    law_resizing_in_place_adds_nothing(grabbed, steps);
}

/// An anchor is kept only for a selected edge, and a plain click on nothing leaves
/// no target and no anchors.
pub proof fn law_anchors_follow_the_selection(
    m: ModelerModel,
    pick: Option<Pick>,
    point: Option<DVec3>,
    additive: bool,
    plane: Option<SketchPlane>,
    g: u32,
)
    ensures
        m.picked(pick, point, additive, plane).edge_anchors.contains_key(g) ==> m.picked(
            pick,
            point,
            additive,
            plane,
        ).selection.selected.contains(Pick::Edge(g)),
        m.picked(None, point, false, plane).edge_anchors == Map::<u32, DVec3>::empty(),
        m.picked(None, point, false, plane).ui.selected is None,
{
    assert(m.picked(None, point, false, plane).edge_anchors =~= Map::<u32, DVec3>::empty());
}

/// Subtracting adds one feature for each other body, in order, each removing the
/// selected body from it; what was there stays.
pub proof fn law_subtract_carves_every_other_body(
    doc: DocumentModel,
    tool: FeatureId,
    targets: Seq<FeatureId>,
    n: nat,
    i: int,
)
    requires
        n <= targets.len(),
        doc.history.next_id + n <= u64::MAX,
    ensures
        ({
            let after = crate::modeler::carved(doc, tool, targets, n);
            let at = doc.active_len() as int;
            &&& after.history.features.len() == doc.history.features.len() + n
            &&& after.history.next_id == doc.history.next_id + n
            &&& after.active_len() == doc.active_len() + n
            &&& 0 <= i < n ==> after.history.features[at + i].kind == (KindModel::Boolean {
                op: BooleanOp::Subtract,
                target: targets[i],
                tool,
            })
            &&& 0 <= i < at ==> after.history.features[i] == doc.history.features[i]
        }),
    decreases n,
{
    if n > 0 {
        law_subtract_carves_every_other_body(doc, tool, targets, (n - 1) as nat, i);
    }
}

/// Uniting or intersecting adds one feature for each other body, in order; the
/// first combines the selected body with the first other, and each later one the
/// result so far with the next, so the last holds everything.
pub proof fn law_folding_chains_the_bodies(
    doc: DocumentModel,
    op: BooleanOp,
    name: Seq<char>,
    first: FeatureId,
    bodies: Seq<FeatureId>,
    n: nat,
    i: int,
)
    requires
        n <= bodies.len(),
        doc.history.next_id + n <= u64::MAX,
    ensures
        ({
            let (after, whole) = crate::modeler::folded(doc, op, name, first, bodies, n);
            let at = doc.active_len() as int;
            &&& after.history.features.len() == doc.history.features.len() + n
            &&& after.history.next_id == doc.history.next_id + n
            &&& after.active_len() == doc.active_len() + n
            &&& whole == (if n == 0 {
                first
            } else {
                FeatureId((doc.history.next_id + n - 1) as u64)
            })
            &&& 0 <= i < n ==> after.history.features[at + i] == (FeatureModel {
                id: FeatureId((doc.history.next_id + i) as u64),
                name,
                suppressed: false,
                kind: KindModel::Boolean {
                    op,
                    target: if i == 0 {
                        first
                    } else {
                        FeatureId((doc.history.next_id + i - 1) as u64)
                    },
                    tool: bodies[i],
                },
            })
        }),
    decreases n,
{
    if n > 0 {
        law_folding_chains_the_bodies(doc, op, name, first, bodies, (n - 1) as nat, i);
    }
}

/// Every one of the features is active.
pub open spec fn all_active(doc: DocumentModel, ids: Seq<FeatureId>) -> bool {
    forall|i: int|
        0 <= i < ids.len() ==> crate::history::backward(
            doc.history.features,
            doc.active_len() as int,
            #[trigger] ids[i],
        )
}

/// What a rebuild shows is active.
pub proof fn law_what_is_shown_is_active<B, E>(doc: DocumentModel, results: Seq<Result<B, E>>)
    requires
        doc.history.well_formed(),
    ensures
        all_active(doc, crate::regen::replay(doc.active(), results).visible),
{
    let all = doc.history.features;
    let active = doc.active();
    let visible = crate::regen::replay(active, results).visible;
    assert forall|i: int, j: int| 0 <= i < j < active.len() implies active[i].id
        != active[j].id by {
        assert(active[i] == all[i] && active[j] == all[j]);
    }
    crate::rebuild_laws::law_visible_is_what_is_left(active, results);
    assert forall|i: int| 0 <= i < visible.len() implies crate::history::backward(
        all,
        doc.active_len() as int,
        #[trigger] visible[i],
    ) by {
        let p = crate::rebuild_laws::place(active, visible[i]);
        assert(p >= 0);
        crate::history::lemma_position(active, visible[i], 0);
        assert(active[p] == all[p]);
        crate::history::lemma_position(all, visible[i], 0);
    }
}

/// An operation on active features keeps every reference pointing backward.
pub proof fn law_operations_keep_references(m: ModelerModel, name: Seq<char>, kind: KindModel)
    requires
        orderly(m.doc),
        all_active(m.doc, kind.inputs()),
    ensures
        m.with_feature(name, kind).doc.history.well_formed(),
        crate::history::sound(m.with_feature(name, kind).doc.history.features),
{
    assert forall|k: int| 0 <= k < kind.inputs().len() implies crate::history::backward(
        m.doc.history.features,
        m.doc.active_len() as int,
        #[trigger] kind.inputs()[k],
    ) by {}
    crate::history_laws::law_adding_keeps_references(
        m.doc.history,
        m.doc.active_len() as int,
        name,
        kind,
    );
}

/// Adding a feature leaves what was active active, and makes the new one so.
proof fn lemma_still_active(doc: DocumentModel, name: Seq<char>, kind: KindModel, id: FeatureId)
    requires
        doc.history.well_formed(),
        doc.history.next_id < u64::MAX,
        crate::history::backward(doc.history.features, doc.active_len() as int, id) || id
            == FeatureId(doc.history.next_id),
    ensures
        crate::history::backward(
            doc.added(name, kind).history.features,
            doc.added(name, kind).active_len() as int,
            id,
        ),
{
    let at = doc.active_len() as int;
    let h = doc.history;
    let after = h.inserted(at, name, kind).features;
    lemma_fresh_position(h, at, name, kind);
    crate::history::lemma_position(h.features, id, 0);
    crate::history::lemma_position(after, id, 0);
    if id != FeatureId(h.next_id) {
        let j = h.index(id)->Some_0;
        assert(after[j] == h.features[j]);
    }
}

/// Combining bodies that are all active keeps every reference pointing backward.
pub proof fn law_combining_keeps_references(m: ModelerModel, op: BooleanOp)
    requires
        orderly(m.doc),
        all_active(m.doc, m.ui.visible),
        m.doc.history.next_id + m.ui.visible.len() <= u64::MAX,
    ensures
        m.combined(op).doc.history.well_formed(),
        crate::history::sound(m.combined(op).doc.history.features),
{
    if let Some(tool) = m.combining() {
        let visible = m.ui.visible;
        let rest = crate::modeler::others(visible, tool);
        visible.lemma_filter_len(|v: FeatureId| v != tool);
        assert(visible.contains(tool));
        let at = visible.index_of(tool);
        assert(visible[at] == tool);
        assert forall|i: int| 0 <= i < rest.len() implies crate::history::backward(
            m.doc.history.features,
            m.doc.active_len() as int,
            #[trigger] rest[i],
        ) by {
            lemma_filtered(visible, tool, i);
            let k = visible.index_of(rest[i]);
            assert(visible[k] == rest[i]);
        }
        lemma_carving_keeps(m.doc, tool, rest, rest.len());
        lemma_folding_keeps(m.doc, op, "Union"@, tool, rest, rest.len());
        lemma_folding_keeps(m.doc, op, "Intersect"@, tool, rest, rest.len());
    }
}

/// The other bodies are visible ones.
proof fn lemma_filtered(visible: Seq<FeatureId>, tool: FeatureId, i: int)
    requires
        0 <= i < crate::modeler::others(visible, tool).len(),
    ensures
        visible.contains(crate::modeler::others(visible, tool)[i]),
    decreases visible.len(),
{
    reveal(Seq::filter);
    let before = visible.drop_last();
    if visible.len() > 0 {
        let kept = crate::modeler::others(before, tool);
        if i < kept.len() {
            lemma_filtered(before, tool, i);
            let k = before.index_of(kept[i]);
            assert(visible[k] == kept[i]);
        } else {
            assert(visible[visible.len() - 1] == visible.last());
        }
    }
}

proof fn lemma_carving_keeps(doc: DocumentModel, tool: FeatureId, targets: Seq<FeatureId>, n: nat)
    requires
        orderly(doc),
        n <= targets.len(),
        doc.history.next_id + targets.len() <= u64::MAX,
        all_active(doc, targets),
        crate::history::backward(doc.history.features, doc.active_len() as int, tool),
    ensures
        ({
            let after = crate::modeler::carved(doc, tool, targets, n);
            &&& after.history.well_formed()
            &&& crate::history::sound(after.history.features)
            &&& after.history.next_id == doc.history.next_id + n
            &&& all_active(after, targets)
            &&& crate::history::backward(after.history.features, after.active_len() as int, tool)
        }),
    decreases n,
{
    if n > 0 {
        lemma_carving_keeps(doc, tool, targets, (n - 1) as nat);
        let before = crate::modeler::carved(doc, tool, targets, (n - 1) as nat);
        let kind = KindModel::Boolean { op: BooleanOp::Subtract, target: targets[n - 1], tool };
        let at = before.active_len() as int;
        assert(kind.inputs()[0] == targets[n - 1] && kind.inputs()[1] == tool);
        assert(crate::history::backward(before.history.features, at, targets[n - 1]));
        crate::history_laws::law_adding_keeps_references(
            before.history,
            at,
            "Subtract"@,
            kind,
        );
        let after = crate::modeler::carved(doc, tool, targets, n);
        assert forall|i: int| 0 <= i < targets.len() implies crate::history::backward(
            after.history.features,
            after.active_len() as int,
            #[trigger] targets[i],
        ) by {
            assert(crate::history::backward(before.history.features, at, targets[i]));
            lemma_still_active(before, "Subtract"@, kind, targets[i]);
        }
        lemma_still_active(before, "Subtract"@, kind, tool);
    }
}

proof fn lemma_folding_keeps(
    doc: DocumentModel,
    op: BooleanOp,
    name: Seq<char>,
    first: FeatureId,
    bodies: Seq<FeatureId>,
    n: nat,
)
    requires
        orderly(doc),
        n <= bodies.len(),
        doc.history.next_id + bodies.len() <= u64::MAX,
        all_active(doc, bodies),
        crate::history::backward(doc.history.features, doc.active_len() as int, first),
    ensures
        ({
            let (after, whole) = crate::modeler::folded(doc, op, name, first, bodies, n);
            &&& after.history.well_formed()
            &&& crate::history::sound(after.history.features)
            &&& after.history.next_id == doc.history.next_id + n
            &&& all_active(after, bodies)
            &&& crate::history::backward(after.history.features, after.active_len() as int, whole)
        }),
    decreases n,
{
    if n > 0 {
        lemma_folding_keeps(doc, op, name, first, bodies, (n - 1) as nat);
        let (before, acc) = crate::modeler::folded(doc, op, name, first, bodies, (n - 1) as nat);
        let kind = KindModel::Boolean { op, target: acc, tool: bodies[n - 1] };
        let at = before.active_len() as int;
        assert(kind.inputs()[0] == acc && kind.inputs()[1] == bodies[n - 1]);
        assert(crate::history::backward(before.history.features, at, bodies[n - 1]));
        crate::history_laws::law_adding_keeps_references(before.history, at, name, kind);
        let after = crate::modeler::folded(doc, op, name, first, bodies, n).0;
        assert forall|i: int| 0 <= i < bodies.len() implies crate::history::backward(
            after.history.features,
            after.active_len() as int,
            #[trigger] bodies[i],
        ) by {
            assert(crate::history::backward(before.history.features, at, bodies[i]));
            lemma_still_active(before, name, kind, bodies[i]);
        }
        lemma_still_active(before, name, kind, FeatureId(before.history.next_id));
    }
}

/// A polygon drawn point by point and closed is kept as a feature when the sketch
/// is finished, with its corners as they were placed.
pub proof fn law_a_drawn_polygon_is_kept(
    m: ModelerModel,
    plane: SketchPlane,
    places: Seq<[Scalar; 2]>,
)
    requires
        3 <= places.len() <= usize::MAX,
        m.session == Some(crate::session::drawn(plane, places).closed_up()),
    ensures
        ({
            let sketch = m.session->Some_0.sketch;
            &&& sketch.profile_loop() == Some(places)
            &&& m.sketch_finished().doc == m.doc.added(
                "Sketch"@,
                KindModel::ConstraintSketch { plane: m.session->Some_0.plane, sketch },
            )
            &&& m.sketch_finished().session is None
            &&& m.sketch_finished().undone().doc == m.doc
        }),
{
    crate::session::law_drawing_and_closing_makes_the_profile(plane, places);
}

} // verus!
