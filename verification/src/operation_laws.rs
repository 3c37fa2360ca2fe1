//! What operations on the selection do to the part.

use crate::bounds::BodyBox;
use crate::document::DocumentModel;
use crate::drag_laws::operation;
use crate::features::{BooleanOp, EdgeAnchor, FeatureId, FeatureModel, KindModel};
use crate::kernel::KernelError;
use crate::mesh::MeshPart;
use crate::modeler::{ModelerModel, SketchAction, UNDO_LIMIT};
use crate::scalar::{DVec3, Scalar};
use crate::selection::Pick;
use vstd::prelude::*;

verus! {

/// The visible bodies other than one, by their places, one after the other.
pub open spec fn all_but(visible: Seq<FeatureId>, tool: FeatureId, at: Seq<int>) -> bool {
    &&& forall|k: int|
        0 <= k < at.len() ==> 0 <= #[trigger] at[k] < visible.len() && visible[at[k]] != tool
    &&& forall|j: int, k: int|
        #![trigger at[j], at[k]]
        0 <= j < k < at.len() ==> at[j] < at[k]
    &&& forall|i: int| 0 <= i < visible.len() && #[trigger] visible[i] != tool ==> at.contains(i)
}

/// Combining takes in every other visible body, in order. Subtracting adds, for each,
/// a feature that takes the selected body from it; the other operations add one for
/// each that joins it to the result so far, the first to the selected body. Each
/// feature is for the way of combining that was asked for. Where no visible body is
/// selected, or no other is there, nothing happens.
pub proof fn law_combining_takes_in_every_other_body(m: ModelerModel, op: BooleanOp, i: int)
    requires
        m.doc.history.next_id + m.ui.visible.len() <= u64::MAX,
    ensures
        ({
            let now = m.combined(op);
            let at = m.doc.active_len() as int;
            let first = m.doc.history.next_id;
            let (was, is) = (m.doc.history.features, now.doc.history.features);
            match m.ui.selected {
                Some(tool) => if m.ui.visible.contains(tool) && (exists|v: int|
                    0 <= v < m.ui.visible.len() && #[trigger] m.ui.visible[v] != tool) {
                    &&& now.undo == m.saved().undo
                    &&& exists|others: Seq<int>|
                        {
                            &&& #[trigger] all_but(m.ui.visible, tool, others)
                            &&& is.len() == was.len() + others.len()
                            &&& 0 <= i < others.len() ==> {
                                let other = m.ui.visible[others[i]];
                                let f = is[at + i];
                                &&& f.id.0 == first + i
                                &&& !f.suppressed
                                &&& f.kind matches KindModel::Boolean {
                                    op: o,
                                    target,
                                    tool: t,
                                } && o == op && if op == BooleanOp::Subtract {
                                    target == other && t == tool
                                } else {
                                    t == other && (if i == 0 {
                                        target == tool
                                    } else {
                                        target.0 == first + i - 1
                                    })
                                }
                            }
                            &&& op == BooleanOp::Subtract ==> now.ui.selected is None
                            &&& op != BooleanOp::Subtract ==> (now.ui.selected matches Some(whole)
                                && whole.0 == first + others.len() - 1)
                        }
                } else {
                    now == m
                },
                None => now == m,
            }
        }),
{
    if let Some(tool) = m.ui.selected {
        let visible = m.ui.visible;
        let rest = crate::modeler::others(visible, tool);
        let others = lemma_others(visible, tool);
        assert(all_but(visible, tool, others));
        if m.combining() is Some {
            visible.lemma_filter_len(|v: FeatureId| v != tool);
            assert(others.len() > 0);
            assert(visible[others[0]] != tool);
            if op == BooleanOp::Subtract {
                crate::modeler_laws::law_subtract_carves_every_other_body(
                    m.doc,
                    tool,
                    rest,
                    rest.len(),
                    i,
                );
                lemma_carved_ids(m.doc, tool, rest, rest.len(), i);
            } else {
                let name = if op == BooleanOp::Union {
                    "Union"@
                } else {
                    "Intersect"@
                };
                crate::modeler_laws::law_folding_chains_the_bodies(
                    m.doc,
                    op,
                    name,
                    tool,
                    rest,
                    rest.len(),
                    i,
                );
            }
            if 0 <= i < others.len() {
                assert(rest[i] == visible[others[i]]);
            }
        } else if visible.contains(tool) && exists|v: int|
            0 <= v < visible.len() && #[trigger] visible[v] != tool {
            let v = choose|v: int| 0 <= v < visible.len() && #[trigger] visible[v] != tool;
            assert(others.contains(v));
        }
    }
}

/// Subtracting numbers its features one after the other.
proof fn lemma_carved_ids(
    doc: DocumentModel,
    tool: FeatureId,
    targets: Seq<FeatureId>,
    n: nat,
    i: int,
)
    requires
        n <= targets.len(),
        doc.history.next_id + n <= u64::MAX,
    ensures
        ({
            let after = crate::modeler::carved(doc, tool, targets, n);
            let at = doc.active_len() as int;
            &&& after.history.next_id == doc.history.next_id + n
            &&& after.active_len() == at + n
            &&& 0 <= i < n ==> after.history.features[at + i].id.0 == doc.history.next_id + i
                && !after.history.features[at + i].suppressed
        }),
    decreases n,
{
    if n > 0 {
        lemma_carved_ids(doc, tool, targets, (n - 1) as nat, i);
        crate::modeler_laws::law_subtract_carves_every_other_body(
            doc,
            tool,
            targets,
            (n - 1) as nat,
            i,
        );
    }
}

/// Where the other bodies stand.
proof fn lemma_others(visible: Seq<FeatureId>, tool: FeatureId) -> (at: Seq<int>)
    ensures
        all_but(visible, tool, at),
        at.len() == crate::modeler::others(visible, tool).len(),
        forall|k: int|
            0 <= k < at.len() ==> #[trigger] crate::modeler::others(visible, tool)[k]
                == visible[at[k]],
    decreases visible.len(),
{
    reveal(Seq::filter);
    if visible.len() == 0 {
        seq![]
    } else {
        let front = visible.drop_last();
        let n = visible.len() - 1;
        let before = lemma_others(front, tool);
        let at = if visible.last() != tool {
            before.push(n)
        } else {
            before
        };
        assert forall|k: int| 0 <= k < before.len() implies #[trigger] at[k] == before[k]
            && visible[at[k]] == front[before[k]] by {}
        assert forall|i: int| 0 <= i < visible.len() && #[trigger] visible[i] != tool implies
            at.contains(i) by {
            if i < n {
                assert(front[i] == visible[i]);
                let k = before.index_of(i);
                assert(at[k] == i);
            } else {
                assert(at[before.len() as int] == n);
            }
        }
        at
    }
}

/// The feature just added, with the operation it has.
proof fn lemma_added(m: ModelerModel, name: Seq<char>, kind: KindModel)
    requires
        m.doc.history.well_formed(),
        m.doc.history.next_id < u64::MAX,
    ensures
        ({
            let now = m.with_feature(name, kind);
            let id = FeatureId(m.doc.history.next_id);
            &&& operation(now, id) == Some(kind)
            &&& now.ui.selected == Some(id)
            &&& now.undo == m.saved().undo
            &&& now.doc.active() == m.doc.active().push(
                FeatureModel { id, name, suppressed: false, kind },
            )
        }),
{
    crate::history_laws::law_new_ids_are_fresh(
        m.doc.history,
        m.doc.active_len() as int,
        name,
        kind,
    );
    crate::history_laws::law_new_features_are_active(m.doc, name, kind);
}

/// A sketch is extruded toward the eye: by twenty millimetres along its normal, or
/// against it if the eye is on the other side. Only a sketch can be extruded.
pub proof fn law_extruding_goes_toward_the_eye(
    m: ModelerModel,
    source: FeatureId,
    facing: Scalar,
)
    requires
        m.doc.history.well_formed(),
        m.doc.history.next_id < u64::MAX,
        !facing.nan(),
    ensures
        ({
            let now = m.extruded(source, facing);
            let id = FeatureId(m.doc.history.next_id);
            match operation(m, source) {
                Some(KindModel::Sketch { .. }) | Some(KindModel::ConstraintSketch { .. }) => {
                    &&& operation(now, id) matches Some(
                        KindModel::Extrude { source: s, distance },
                    ) && s == source && {
                        &&& distance.less(Scalar { bits: 0 }) == facing.less(Scalar { bits: 0 })
                        &&& crate::scalar_laws::is_nearest(
                            Scalar { bits: distance.magnitude() as u64 },
                            20,
                            1,
                            48,
                            0x1_0000_0000_0000,
                        )
                    }
                    &&& now.ui.selected == Some(id)
                    &&& now.undo == m.saved().undo
                },
                _ => now == m,
            }
        }),
{
    let distance = if facing.rank() < 0 {
        Scalar { bits: 0xc034_0000_0000_0000 }
    } else {
        Scalar { bits: 0x4034_0000_0000_0000 }
    };
    lemma_added(m, "Extrude"@, KindModel::Extrude { source, distance });
}

/// The selected edges that were clicked somewhere, by their places in the selection,
/// one after the other.
pub open spec fn clicked_edges(
    selected: Seq<Pick>,
    anchors: Map<u32, DVec3>,
    at: Seq<int>,
) -> bool {
    &&& forall|k: int|
        0 <= k < at.len() ==> 0 <= #[trigger] at[k] < selected.len() && (
        selected[at[k]] matches Pick::Edge(g) && anchors.contains_key(g))
    &&& forall|j: int, k: int|
        #![trigger at[j], at[k]]
        0 <= j < k < at.len() ==> at[j] < at[k]
    &&& forall|i: int|
        0 <= i < selected.len() && (#[trigger] selected[i] matches Pick::Edge(g)
            && anchors.contains_key(g)) ==> at.contains(i)
}

/// Filleting rounds the selected edges of the selected body, each where it was
/// clicked, in one feature of two millimetres; nothing is selected then. Where no edge
/// was clicked, nothing happens.
pub proof fn law_filleting_rounds_the_clicked_edges(m: ModelerModel)
    requires
        m.doc.history.well_formed(),
        m.doc.history.next_id < u64::MAX,
    ensures
        exists|at: Seq<int>|
            {
                let now = m.edges_filleted();
                let id = FeatureId(m.doc.history.next_id);
                &&& #[trigger] clicked_edges(m.selection.selected, m.edge_anchors, at)
                &&& if m.selected_body() is Some && at.len() > 0 {
                    &&& operation(now, id) matches Some(KindModel::Fillet { source, edges, radius })
                        && Some(source) == m.selected_body() && radius
                        == crate::modeler::default_radius() && edges.len() == at.len() && forall|
                        k: int,
                    |
                        0 <= k < at.len() ==> (#[trigger] edges[k]).point
                            == m.edge_anchors[m.selection.selected[at[k]]->Edge_0]
                    &&& now.selection.selected.len() == 0
                    &&& now.undo == m.saved().undo
                } else {
                    now == m
                }
            },
{
    let edges = crate::modeler::chosen_edges(m.selection.selected, m.edge_anchors);
    let at = lemma_chosen(m.selection.selected, m.edge_anchors);
    assert(clicked_edges(m.selection.selected, m.edge_anchors, at));
    if let Some(source) = m.selected_body() {
        lemma_added(
            m,
            crate::modeler::fillet_name(edges.len()),
            KindModel::Fillet { source, edges, radius: crate::modeler::default_radius() },
        );
    }
}

/// Where the edges to round stand in the selection.
proof fn lemma_chosen(selected: Seq<Pick>, anchors: Map<u32, DVec3>) -> (at: Seq<int>)
    ensures
        clicked_edges(selected, anchors, at),
        at.len() == crate::modeler::chosen_edges(selected, anchors).len(),
        forall|k: int|
            0 <= k < at.len() ==> (#[trigger] crate::modeler::chosen_edges(
                selected,
                anchors,
            )[k]).point == anchors[selected[at[k]]->Edge_0],
    decreases selected.len(),
{
    if selected.len() == 0 {
        seq![]
    } else {
        let front = selected.drop_last();
        let n = selected.len() - 1;
        let before = lemma_chosen(front, anchors);
        let takes = selected.last() matches Pick::Edge(g) && anchors.contains_key(g);
        let at = if takes {
            before.push(n)
        } else {
            before
        };
        assert forall|k: int| 0 <= k < before.len() implies #[trigger] at[k] == before[k]
            && selected[at[k]] == front[before[k]] by {}
        assert forall|i: int|
            0 <= i < selected.len() && (#[trigger] selected[i] matches Pick::Edge(g)
                && anchors.contains_key(g)) implies at.contains(i) by {
            if i < n {
                assert(front[i] == selected[i]);
                let k = before.index_of(i);
                assert(at[k] == i);
            } else {
                assert(at[before.len() as int] == n);
            }
        }
        assert forall|k: int| 0 <= k < at.len() implies (#[trigger] crate::modeler::chosen_edges(
            selected,
            anchors,
        )[k]).point == anchors[selected[at[k]]->Edge_0] by {
            if k < before.len() {
                assert(crate::modeler::chosen_edges(selected, anchors)[k]
                    == crate::modeler::chosen_edges(front, anchors)[k]);
            }
        }
        at
    }
}

/// Filleting a face rounds the given edges of the body that the selected face belongs
/// to, in one feature of two millimetres.
pub proof fn law_filleting_a_face_rounds_its_body(
    m: ModelerModel,
    edges: Seq<EdgeAnchor>,
)
    requires
        m.doc.history.well_formed(),
        m.doc.history.next_id < u64::MAX,
    ensures
        ({
            let now = m.face_filleted(edges);
            let id = FeatureId(m.doc.history.next_id);
            if m.selection.selected.len() > 0 && m.selection.selected[0] is Face
                && m.selected_body() is Some && edges.len() > 0 {
                operation(now, id) matches Some(KindModel::Fillet { source, edges: e, radius })
                    && Some(source) == m.selected_body() && e == edges && radius
                    == crate::modeler::default_radius() && now.undo == m.saved().undo
            } else {
                now == m
            }
        }),
{
    if let Some(source) = m.selected_body() {
        lemma_added(
            m,
            "Fillet face"@,
            KindModel::Fillet { source, edges, radius: crate::modeler::default_radius() },
        );
    }
}

/// A click finds its body: of the bodies shown together, the number that a body's face
/// or edge is shown under leads to the feature of that body.
pub proof fn law_a_click_finds_its_body<T, E>(
    m: ModelerModel,
    parts: Seq<Result<MeshPart<T>, E>>,
    b: int,
    i: int,
)
    requires
        parts.len() < usize::MAX,
        crate::mesh::roomy(parts, parts.len()),
        m.ui.visible.len() == parts.len(),
        m.face_ranges == crate::mesh::gathered(parts, parts.len()).face_ranges,
        m.edge_ranges == crate::mesh::gathered(parts, parts.len()).edge_ranges,
        0 <= b < parts.len(),
        parts[b] is Ok,
    ensures
        ({
            let part = parts[b]->Ok_0@;
            let before = crate::mesh::gathered(parts, b as nat);
            &&& 0 <= i < part.face_ids.len() ==> m.body_of(
                Pick::Face((before.face_offset + part.face_ids[i]) as u32),
            ) == Some(m.ui.visible[b])
            &&& 0 <= i < part.edge_ids.len() ==> m.body_of(
                Pick::Edge((before.edge_offset + part.edge_ids[i]) as u32),
            ) == Some(m.ui.visible[b])
        }),
{
    let part = parts[b]->Ok_0@;
    if 0 <= i < part.face_ids.len() {
        crate::mesh::law_every_face_leads_back(parts, b, i);
    }
    if 0 <= i < part.edge_ids.len() {
        crate::mesh::law_every_edge_leads_back(parts, b, i);
    }
}

/// What a rebuild shows is what is seen: the visible bodies, each with its own box, and
/// every failure, those of the rebuild first and then those of bodies without a mesh.
pub proof fn law_a_rebuild_is_shown(
    m: ModelerModel,
    visible: Seq<FeatureId>,
    problems: Seq<(FeatureId, Seq<char>)>,
    face_ranges: Seq<u32>,
    edge_ranges: Seq<u32>,
    boxes: Seq<Result<BodyBox, KernelError>>,
    i: int,
)
    requires
        visible.no_duplicates(),
        visible.len() == boxes.len(),
        0 <= i < visible.len(),
    ensures
        ({
            let now = m.showing(visible, problems, face_ranges, edge_ranges, boxes);
            &&& now.ui.visible == visible
            &&& now.face_ranges == face_ranges && now.edge_ranges == edge_ranges
            &&& boxes[i] matches Ok(b) ==> now.box_of(visible[i]) == Some(b)
            &&& problems.is_prefix_of(now.ui.errors)
            &&& boxes[i] matches Err(e) ==> now.ui.errors.contains((FeatureId(0), e.0@))
            &&& now.doc == m.doc && now.undo == m.undo && now.selection == m.selection
        }),
{
    let now = m.showing(visible, problems, face_ranges, edge_ranges, boxes);
    visible.index_of_first_ensures(visible[i]);
    assert(visible.contains(visible[i]));
    lemma_meshless(boxes, i);
    let told = crate::modeler::meshless(boxes);
    if let Err(e) = boxes[i] {
        let k = told.index_of((FeatureId(0), e.0@));
        assert(now.ui.errors[problems.len() + k] == told[k]);
    }
    assert(now.ui.errors.take(problems.len() as int) =~= problems);
}

proof fn lemma_meshless(boxes: Seq<Result<BodyBox, KernelError>>, i: int)
    requires
        0 <= i < boxes.len(),
    ensures
        boxes[i] matches Err(e) ==> crate::modeler::meshless(boxes).contains((FeatureId(0), e.0@)),
    decreases boxes.len(),
{
    let n = boxes.len() - 1;
    let front = boxes.drop_last();
    let before = crate::modeler::meshless(front);
    if let Err(e) = boxes[i] {
        if i < n {
            lemma_meshless(front, i);
            let k = before.index_of((FeatureId(0), e.0@));
            assert(crate::modeler::meshless(boxes)[k] == (FeatureId(0), e.0@));
        } else {
            assert(crate::modeler::meshless(boxes)[before.len() as int] == (FeatureId(0), e.0@));
        }
    }
}

/// What is kept for undo is kept last and undone first; the entries before it stay, but
/// for the oldest where there is no more room; and nothing can be redone any more.
pub proof fn law_the_latest_is_undone_first(m: ModelerModel, before: DocumentModel, i: int)
    ensures
        ({
            let now = m.recorded(before);
            &&& now.undone().doc == before
            &&& now.redo.len() == 0
            &&& now.doc == m.doc
            &&& m.undo.len() < UNDO_LIMIT ==> now.undo.len() == m.undo.len() + 1 && (0 <= i
                < m.undo.len() ==> now.undo[i] == m.undo[i])
            &&& m.undo.len() == UNDO_LIMIT ==> now.undo.len() == m.undo.len() && (0 <= i
                < m.undo.len() - 1 ==> now.undo[i] == m.undo[i + 1])
            &&& now.unrecorded().doc == m.doc
        }),
        UNDO_LIMIT == 200,
{
}

/// A document that is opened is the one that is there, and nothing is left of what
/// belonged to the one before: no undo, no selection, no drag and no drawing.
pub proof fn law_opening_leaves_nothing_behind(m: ModelerModel, doc: DocumentModel)
    ensures
        ({
            let now = m.opened(doc);
            &&& now.doc == doc
            &&& now.undo.len() == 0 && now.redo.len() == 0
            &&& now.selection.selected.len() == 0 && now.selection.hovered is None
            &&& now.selection.face_plane is None
            &&& now.edge_anchors == Map::<u32, DVec3>::empty()
            &&& now.transform is None && now.manipulation is None && now.resize is None
            &&& now.session is None && !now.editing
            &&& now.ui.selected is None
        }),
{
}

/// A finished drawing is kept as a sketch on its plane, just as it was drawn, if its
/// lines close a loop, and dropped if not; either way the drawing ends. A cancelled one
/// is dropped, and the document stays.
pub proof fn law_a_closed_drawing_is_kept(m: ModelerModel)
    requires
        m.doc.history.well_formed(),
        m.doc.history.next_id < u64::MAX,
        m.session is Some,
    ensures
        ({
            let s = m.session->Some_0;
            let now = m.sketch_finished();
            let id = FeatureId(m.doc.history.next_id);
            &&& now.session is None
            &&& if s.sketch.profile_loop() is Some {
                operation(now, id) matches Some(KindModel::ConstraintSketch { plane, sketch })
                    && plane == s.plane && sketch == s.sketch && now.undo == m.saved().undo
            } else {
                now.doc == m.doc && now.undo == m.undo
            }
        }),
        crate::modeler::sketched(m, SketchAction::Cancel).doc == m.doc,
        crate::modeler::sketched(m, SketchAction::Cancel).session is None,
{
    let s = m.session->Some_0;
    let left = ModelerModel { session: None, ..m };
    lemma_added(
        left,
        "Sketch"@,
        KindModel::ConstraintSketch { plane: s.plane, sketch: s.sketch },
    );
}

/// While drawing, an action does to the drawing what it is called after, and nothing to
/// the document.
pub proof fn law_actions_draw(m: ModelerModel, action: SketchAction)
    requires
        m.session is Some,
        !(action is Finish),
        !(action is Cancel),
    ensures
        ({
            let s = m.session->Some_0;
            let now = crate::modeler::sketched(m, action);
            &&& now.doc == m.doc && now.undo == m.undo && now.selection == m.selection
            &&& now.session matches Some(t)
            &&& t.plane == s.plane
            &&& match action {
                SketchAction::SetTool(tool) => t.tool == tool && t.sketch == s.sketch,
                SketchAction::AddPoint(uv) => t.sketch.points.len() == s.sketch.points.len() + 1
                    && t.sketch.points.last().x == uv[0] && t.sketch.points.last().y == uv[1],
                SketchAction::CloseLoop => t.closed && t.sketch.points == s.sketch.points,
                SketchAction::PickAt { .. } => t.sketch == s.sketch,
                SketchAction::Apply(constraint) => t.sketch.constraints
                    == s.sketch.constraints.push(constraint),
                _ => true,
            }
        }),
        ({
            let step = crate::modeler::sketch_step(m, action);
            &&& !step.changed && !step.over
            &&& step.solve == (action is CloseLoop || action is Apply)
        }),
{
}

} // verus!
