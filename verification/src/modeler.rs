//! The modeler: a document with its undo history, what is selected, and the
//! operations on the selection.

use crate::bounds::BodyBox;
use crate::document::{Document, DocumentModel};
use crate::drags::{Manipulation, ResizeDrag, TransformDrag};
use crate::features::{BooleanOp, EdgeAnchor, FeatureId, FeatureKind, KindModel};
use crate::kernel::KernelError;
use crate::panel::{HistoryState, StateModel};
use crate::picking::Highlights;
use crate::scalar::{DVec3, Scalar};
use crate::selection::{Pick, Selection, SelectionModel};
use crate::session::{SessionModel, SketchSession, SketchTool};
use crate::sketch::{Constraint, LineId, PointId, SketchPlane};
use std::collections::HashMap;
use vstd::prelude::*;

verus! {

broadcast use vstd::std_specs::hash::group_hash_axioms;

/// How many earlier states are kept.
pub const UNDO_LIMIT: usize = 200;

/// The state of the modeler.
#[derive(Debug)]
pub struct Modeler {
    pub doc: Document,
    /// The last message of an export, a save or the like.
    pub status: Option<String>,
    pub ui: HistoryState,
    /// Earlier states of the document, the latest last.
    pub undo: Vec<Document>,
    /// Undone states of the document, the latest undone last.
    pub redo: Vec<Document>,
    /// Whether a continuous edit is going on in the panel, so that all of it
    /// becomes one undo entry.
    pub editing: bool,
    /// The sketch being drawn.
    pub sketch_session: Option<SketchSession>,
    pub selection: Selection,
    /// Where each visible body's face numbers start.
    pub face_ranges: Vec<u32>,
    /// Where each visible body's edge numbers start.
    pub edge_ranges: Vec<u32>,
    /// The box around each visible body.
    pub body_boxes: Vec<BodyBox>,
    /// Where each selected edge was clicked, by its number.
    pub edge_anchors: HashMap<u32, DVec3>,
    /// A face being pushed or pulled.
    pub manipulation: Option<Manipulation>,
    /// A body being moved or turned.
    pub transform: Option<TransformDrag>,
    /// A body being resized.
    pub resize: Option<ResizeDrag>,
}

/// What a [`Modeler`] holds.
#[verifier::ext_equal]
pub struct ModelerModel {
    pub doc: DocumentModel,
    pub status: Option<Seq<char>>,
    pub ui: StateModel,
    pub undo: Seq<DocumentModel>,
    pub redo: Seq<DocumentModel>,
    pub editing: bool,
    pub session: Option<SessionModel>,
    pub selection: SelectionModel,
    pub face_ranges: Seq<u32>,
    pub edge_ranges: Seq<u32>,
    pub body_boxes: Seq<BodyBox>,
    pub edge_anchors: Map<u32, DVec3>,
    pub manipulation: Option<Manipulation>,
    pub transform: Option<TransformDrag>,
    pub resize: Option<ResizeDrag>,
}

/// The documents' contents.
pub open spec fn contents(docs: Seq<Document>) -> Seq<DocumentModel> {
    Seq::new(docs.len(), |i: int| docs[i]@)
}

impl View for Modeler {
    type V = ModelerModel;

    open spec fn view(&self) -> ModelerModel {
        ModelerModel {
            doc: self.doc@,
            status: match self.status {
                Some(s) => Some(s@),
                None => None,
            },
            ui: self.ui@,
            undo: contents(self.undo@),
            redo: contents(self.redo@),
            editing: self.editing,
            session: match self.sketch_session {
                Some(s) => Some(s@),
                None => None,
            },
            selection: self.selection@,
            face_ranges: self.face_ranges@,
            edge_ranges: self.edge_ranges@,
            body_boxes: self.body_boxes@,
            edge_anchors: self.edge_anchors@,
            manipulation: self.manipulation,
            transform: self.transform,
            resize: self.resize,
        }
    }
}

/// The visible bodies other than `tool`, in order.
pub open spec fn others(visible: Seq<FeatureId>, tool: FeatureId) -> Seq<FeatureId> {
    visible.filter(|v: FeatureId| v != tool)
}

/// The document with `tool` subtracted from each of the first `n` targets.
pub open spec fn carved(
    doc: DocumentModel,
    tool: FeatureId,
    targets: Seq<FeatureId>,
    n: nat,
) -> DocumentModel
    decreases n,
{
    if n == 0 {
        doc
    } else {
        carved(doc, tool, targets, (n - 1) as nat).added(
            "Subtract"@,
            KindModel::Boolean { op: BooleanOp::Subtract, target: targets[n - 1], tool },
        )
    }
}

/// The document with `first` combined with the first `n` of the bodies in turn,
/// and the feature that holds the result.
pub open spec fn folded(
    doc: DocumentModel,
    op: BooleanOp,
    name: Seq<char>,
    first: FeatureId,
    bodies: Seq<FeatureId>,
    n: nat,
) -> (DocumentModel, FeatureId)
    decreases n,
{
    if n == 0 {
        (doc, first)
    } else {
        let (before, acc) = folded(doc, op, name, first, bodies, (n - 1) as nat);
        (
            before.added(name, KindModel::Boolean { op, target: acc, tool: bodies[n - 1] }),
            FeatureId(before.history.next_id),
        )
    }
}

/// The anchors of the selected edges that have one, in click order.
pub open spec fn chosen_edges(selected: Seq<Pick>, anchors: Map<u32, DVec3>) -> Seq<EdgeAnchor>
    decreases selected.len(),
{
    if selected.len() == 0 {
        seq![]
    } else {
        let before = chosen_edges(selected.drop_last(), anchors);
        match selected.last() {
            Pick::Edge(g) => if anchors.contains_key(g) {
                before.push(EdgeAnchor { point: anchors[g] })
            } else {
                before
            },
            Pick::Face(_) => before,
        }
    }
}

/// Two millimetres: the radius a fillet starts with.
pub open spec fn default_radius() -> Scalar {
    Scalar { bits: 0x4000_0000_0000_0000 }
}

impl ModelerModel {
    /// The state with `before` kept for undo. Only so many are kept, and nothing
    /// can be redone any more.
    pub open spec fn recorded(self, before: DocumentModel) -> ModelerModel {
        ModelerModel {
            undo: if self.undo.len() >= UNDO_LIMIT {
                self.undo.skip(1).push(before)
            } else {
                self.undo.push(before)
            },
            redo: seq![],
            ..self
        }
    }

    /// The state after the panel was shown, with the document as it was before.
    pub open spec fn panel_closed(self, before: Option<DocumentModel>, changed: bool) -> ModelerModel {
        ModelerModel {
            editing: changed,
            ..match before {
                Some(doc) => if changed {
                    self.recorded(doc)
                } else {
                    self
                },
                None => self,
            }
        }
    }

    /// The state with the present document kept for undo.
    pub open spec fn saved(self) -> ModelerModel {
        self.recorded(self.doc)
    }

    /// The state one step back, if there is one.
    pub open spec fn undone(self) -> ModelerModel {
        if self.undo.len() == 0 {
            self
        } else {
            ModelerModel {
                doc: self.undo.last(),
                undo: self.undo.drop_last(),
                redo: self.redo.push(self.doc),
                ..self
            }
        }
    }

    /// The state one step forward again, if there is one.
    pub open spec fn redone(self) -> ModelerModel {
        if self.redo.len() == 0 {
            self
        } else {
            ModelerModel {
                doc: self.redo.last(),
                undo: self.undo.push(self.doc),
                redo: self.redo.drop_last(),
                ..self
            }
        }
    }

    /// The state with the last undo entry forgotten.
    pub open spec fn unrecorded(self) -> ModelerModel {
        ModelerModel {
            undo: if self.undo.len() == 0 {
                self.undo
            } else {
                self.undo.drop_last()
            },
            ..self
        }
    }

    /// The visible body a pick belongs to.
    pub open spec fn body_index(self, pick: Pick) -> Option<usize> {
        match pick {
            Pick::Face(g) => match crate::mesh::located(self.face_ranges, g) {
                Some((i, _)) => Some(i),
                None => None,
            },
            Pick::Edge(g) => match crate::mesh::located(self.edge_ranges, g) {
                Some((i, _)) => Some(i),
                None => None,
            },
        }
    }

    /// The feature behind a pick.
    pub open spec fn body_of(self, pick: Pick) -> Option<FeatureId> {
        match self.body_index(pick) {
            Some(i) => if i < self.ui.visible.len() {
                Some(self.ui.visible[i as int])
            } else {
                None
            },
            None => None,
        }
    }

    /// The feature behind the entity selected first.
    pub open spec fn selected_body(self) -> Option<FeatureId> {
        if self.selection.selected.len() == 0 {
            None
        } else {
            self.body_of(self.selection.selected[0])
        }
    }

    /// The body the others are combined with: the selected feature, if it is
    /// visible and not alone.
    pub open spec fn combining(self) -> Option<FeatureId> {
        match self.ui.selected {
            Some(tool) => if self.ui.visible.contains(tool) && others(self.ui.visible, tool).len()
                > 0 {
                Some(tool)
            } else {
                None
            },
            None => None,
        }
    }

    /// The state with another feature selected in the panel.
    pub open spec fn selecting(self, selected: Option<FeatureId>) -> ModelerModel {
        ModelerModel { ui: StateModel { selected, ..self.ui }, ..self }
    }

    /// The state with nothing selected in the viewport.
    pub open spec fn deselected(self) -> ModelerModel {
        ModelerModel { selection: SelectionModel::empty(), ..self }
    }

    /// The state with a feature added, selected in the panel, after keeping the
    /// document for undo.
    pub open spec fn with_feature(self, name: Seq<char>, kind: KindModel) -> ModelerModel {
        (ModelerModel { doc: self.doc.added(name, kind), ..self.saved() }).selecting(
            Some(FeatureId(self.doc.history.next_id)),
        )
    }

    /// The state after combining. Subtracting removes the selected body from each
    /// of the others; the other operations make one body of all.
    pub open spec fn combined(self, op: BooleanOp) -> ModelerModel {
        match self.combining() {
            None => self,
            Some(tool) => {
                let rest = others(self.ui.visible, tool);
                match op {
                    BooleanOp::Subtract => (ModelerModel {
                        doc: carved(self.doc, tool, rest, rest.len()),
                        ..self.saved()
                    }).selecting(None).deselected(),
                    _ => {
                        let name = if op == BooleanOp::Union {
                            "Union"@
                        } else {
                            "Intersect"@
                        };
                        let (doc, whole) = folded(self.doc, op, name, tool, rest, rest.len());
                        (ModelerModel { doc, ..self.saved() }).selecting(Some(whole)).deselected()
                    },
                }
            },
        }
    }

    /// The plane of a sketch feature.
    pub open spec fn sketch_plane(self, source: FeatureId) -> Option<SketchPlane> {
        match self.doc.history.kind_of(source) {
            Some(KindModel::Sketch { plane, .. }) => Some(plane),
            Some(KindModel::ConstraintSketch { plane, .. }) => Some(plane),
            _ => None,
        }
    }

    /// The state after a sketch was extruded toward the eye.
    pub open spec fn extruded(self, source: FeatureId, facing: Scalar) -> ModelerModel {
        if self.sketch_plane(source) is Some {
            self.with_feature(
                "Extrude"@,
                KindModel::Extrude {
                    source,
                    distance: if facing.nan() || facing.rank() < 0 {
                        Scalar { bits: 0xc034_0000_0000_0000 }
                    } else {
                        Scalar { bits: 0x4034_0000_0000_0000 }
                    },
                },
            )
        } else {
            self
        }
    }

    /// The state after the given edges of the selected face were filleted.
    pub open spec fn face_filleted(self, edges: Seq<EdgeAnchor>) -> ModelerModel {
        match self.face_to_fillet() {
            Some((i, _)) => if edges.len() > 0 {
                self.with_feature(
                    "Fillet face"@,
                    KindModel::Fillet {
                        source: self.ui.visible[i as int],
                        edges,
                        radius: default_radius(),
                    },
                ).deselected()
            } else {
                self
            },
            None => self,
        }
    }

    /// The state after the selected edges were filleted.
    pub open spec fn edges_filleted(self) -> ModelerModel {
        let edges = chosen_edges(self.selection.selected, self.edge_anchors);
        match self.selected_body() {
            Some(source) => if edges.len() > 0 {
                ModelerModel {
                    edge_anchors: Map::empty(),
                    ..self.with_feature(
                        fillet_name(edges.len()),
                        KindModel::Fillet { source, edges, radius: default_radius() },
                    ).deselected()
                }
            } else {
                self
            },
            None => self,
        }
    }

    /// The face whose edges can be filleted: its body and its number there.
    pub open spec fn face_to_fillet(self) -> Option<(usize, u32)> {
        if self.selection.selected.len() == 0 {
            None
        } else {
            match self.selection.selected[0] {
                Pick::Face(g) => match crate::mesh::located(self.face_ranges, g) {
                    Some((i, local)) => if i < self.ui.visible.len() {
                        Some((i, local))
                    } else {
                        None
                    },
                    None => None,
                },
                Pick::Edge(_) => None,
            }
        }
    }

    /// The state after a click on `pick`: selected, with where an edge was
    /// clicked kept for as long as it is selected, and the body's feature
    /// selected in the panel.
    pub open spec fn picked(
        self,
        pick: Option<Pick>,
        point: Option<DVec3>,
        additive: bool,
        plane: Option<SketchPlane>,
    ) -> ModelerModel {
        let selection = self.selection.clicked(
            pick,
            additive,
            match pick {
                Some(Pick::Face(_)) => plane,
                _ => None,
            },
        );
        let anchors = match (pick, point) {
            (Some(Pick::Edge(g)), Some(p)) => self.edge_anchors.insert(g, p),
            _ => self.edge_anchors,
        };
        let after = ModelerModel {
            selection,
            edge_anchors: anchors.restrict(live_edges(selection.selected)),
            ..self
        };
        after.selecting(after.selected_body())
    }

    /// The state with another document, and nothing left of what belonged to the
    /// old one.
    pub open spec fn opened(self, doc: DocumentModel) -> ModelerModel {
        ModelerModel {
            doc,
            undo: seq![],
            redo: seq![],
            edge_anchors: Map::empty(),
            transform: None,
            manipulation: None,
            resize: None,
            session: None,
            editing: false,
            ..self
        }.selecting(None).deselected()
    }

    /// The state after a rebuild.
    pub open spec fn showing(
        self,
        visible: Seq<FeatureId>,
        problems: Seq<(FeatureId, Seq<char>)>,
        face_ranges: Seq<u32>,
        edge_ranges: Seq<u32>,
        boxes: Seq<Result<BodyBox, KernelError>>,
    ) -> ModelerModel {
        ModelerModel {
            ui: StateModel { visible, errors: problems + meshless(boxes), ..self.ui },
            face_ranges,
            edge_ranges,
            body_boxes: shown_boxes(boxes),
            ..self
        }
    }

    /// The state after a sketch is finished: kept as a feature if it is a closed
    /// loop, dropped otherwise.
    pub open spec fn sketch_finished(self) -> ModelerModel {
        match self.session {
            None => self,
            Some(s) => {
                let left = ModelerModel { session: None, ..self };
                if s.sketch.profile_loop() is Some {
                    left.with_feature(
                        "Sketch"@,
                        KindModel::ConstraintSketch { plane: s.plane, sketch: s.sketch },
                    )
                } else {
                    left
                }
            },
        }
    }
}

/// The box of each body, an empty one for a body without a mesh.
pub open spec fn shown_boxes(boxes: Seq<Result<BodyBox, KernelError>>) -> Seq<BodyBox> {
    Seq::new(
        boxes.len(),
        |i: int|
            match boxes[i] {
                Ok(b) => b,
                Err(_) => BodyBox::nothing(),
            },
    )
}

/// Why bodies have no mesh, in order. Such a failure belongs to no feature.
pub open spec fn meshless(boxes: Seq<Result<BodyBox, KernelError>>) -> Seq<(FeatureId, Seq<char>)>
    decreases boxes.len(),
{
    if boxes.len() == 0 {
        seq![]
    } else {
        let before = meshless(boxes.drop_last());
        match boxes.last() {
            Ok(_) => before,
            Err(e) => before.push((FeatureId(0), e.0@)),
        }
    }
}

/// The numbers of the selected edges.
pub open spec fn live_edges(selected: Seq<Pick>) -> Set<u32> {
    Set::new(|g: u32| selected.contains(Pick::Edge(g)))
}

/// The bar shown for a selection.
#[derive(Debug)]
pub enum SelectionBar {
    Hidden,
    /// A face is selected; a sketch can be drawn on it if it is planar.
    Face { can_sketch: bool },
    /// Edges are selected.
    Edges { label: String, action: String },
}

/// What the bar for `n` selected edges says.
pub open spec fn edges_label(n: nat) -> Seq<char> {
    if n == 1 {
        "1 edge selected"@
    } else {
        crate::text::decimal(n) + " edges selected"@
    }
}

/// What the button for `n` selected edges says.
pub open spec fn edges_action(n: nat) -> Seq<char> {
    if n == 1 {
        "⌒ Fillet this edge"@
    } else {
        "⌒ Fillet these "@ + crate::text::decimal(n) + " edges"@
    }
}

/// The name of a fillet of `n` edges.
pub open spec fn fillet_name(n: nat) -> Seq<char> {
    if n == 1 {
        "Fillet edge"@
    } else {
        "Fillet "@ + crate::text::decimal(n) + " edges"@
    }
}

fn edge_fillet_name(n: usize) -> (r: String)
    ensures
        r@ == fillet_name(n as nat),
{
    if n == 1 {
        String::from_str("Fillet edge")
    } else {
        let mut name = String::from_str("Fillet ");
        name.append(crate::text::decimal_text(n as u64).as_str());
        name.append(" edges");
        name
    }
}

/// Whether undo and redo were asked for by keys: command with Z, or with shift
/// and Z or with Y.
pub fn undo_redo_keys(command: bool, shift: bool, z: bool, y: bool) -> (r: (bool, bool))
    ensures
        r.0 == (command && !shift && z),
        r.1 == (command && ((shift && z) || y)),
{
    (command && !shift && z, command && ((shift && z) || y))
}

/// Something done while drawing a sketch. A click on the canvas to select tells
/// how far each visible point and line is from it.
#[derive(Debug)]
pub enum SketchAction {
    SetTool(SketchTool),
    AddPoint([Scalar; 2]),
    CloseLoop,
    PickAt { points: Vec<(Scalar, PointId)>, lines: Vec<(Scalar, LineId)> },
    Apply(Constraint),
    Finish,
    Cancel,
}

/// What follows a sketch action.
#[derive(Clone, Copy, PartialEq, Eq, Debug, Structural)]
pub struct SketchStep {
    /// The document changed.
    pub changed: bool,
    /// Later actions of the same frame are dropped.
    pub over: bool,
    /// The sketch is to be solved.
    pub solve: bool,
}

/// The state after a sketch action.
pub open spec fn sketched(m: ModelerModel, action: SketchAction) -> ModelerModel {
    match action {
        SketchAction::Cancel => ModelerModel { session: None, ..m },
        SketchAction::Finish => m.sketch_finished(),
        _ => match m.session {
            None => m,
            Some(s) => ModelerModel {
                session: Some(
                    match action {
                        SketchAction::SetTool(tool) => s.with_tool(tool),
                        SketchAction::AddPoint(uv) => s.with_point(uv[0], uv[1]),
                        SketchAction::CloseLoop => s.closed_up(),
                        SketchAction::PickAt { points, lines } => s.picked(points@, lines@),
                        SketchAction::Apply(constraint) => s.constrained(constraint),
                        _ => s,
                    },
                ),
                ..m
            },
        },
    }
}

/// What follows a sketch action: closing the loop and constraining call for
/// solving, and finishing and cancelling end the drawing.
pub open spec fn sketch_step(m: ModelerModel, action: SketchAction) -> SketchStep {
    SketchStep {
        changed: action is Finish && (m.session matches Some(s) && s.sketch.profile_loop() is Some),
        over: action is Finish || action is Cancel,
        solve: action is CloseLoop || action is Apply,
    }
}

impl Modeler {
    /// A modeler of the given document.
    pub fn new(doc: Document) -> (r: Modeler)
        ensures
            r@ == (ModelerModel {
                doc: doc@,
                status: None,
                ui: StateModel {
                    selected: None,
                    errors: seq![],
                    visible: seq![],
                    can_undo: false,
                    can_redo: false,
                },
                undo: seq![],
                redo: seq![],
                editing: false,
                session: None,
                selection: SelectionModel::empty(),
                face_ranges: seq![],
                edge_ranges: seq![],
                body_boxes: seq![],
                edge_anchors: Map::empty(),
                manipulation: None,
                transform: None,
                resize: None,
            }),
    {
        Modeler {
            doc,
            status: None,
            ui: HistoryState::default(),
            undo: Vec::new(),
            redo: Vec::new(),
            editing: false,
            sketch_session: None,
            selection: Selection::default(),
            face_ranges: Vec::new(),
            edge_ranges: Vec::new(),
            body_boxes: Vec::new(),
            edge_anchors: HashMap::new(),
            manipulation: None,
            transform: None,
            resize: None,
        }
    }

    /// Keep an earlier document for undo. Nothing can be redone any more.
    pub fn record_undo(&mut self, before: Document)
        ensures
            final(self)@ == old(self)@.recorded(before@),
    {
        let ghost was = self@;
        if self.undo.len() >= UNDO_LIMIT {
            self.undo.remove(0);
            assert(contents(self.undo@) =~= was.undo.skip(1));
        }
        let ghost kept = contents(self.undo@);
        self.undo.push(before);
        assert(contents(self.undo@) =~= kept.push(before@));
        self.redo.clear();
        assert(contents(self.redo@) =~= seq![]);
    }

    /// Go one step back. Returns whether there was one.
    pub fn undo(&mut self) -> (r: bool)
        ensures
            r == (old(self)@.undo.len() > 0),
            final(self)@ == old(self)@.undone(),
    {
        let ghost was = self@;
        match self.undo.pop() {
            Some(prev) => {
                let mut doc = prev;
                core::mem::swap(&mut self.doc, &mut doc);
                self.redo.push(doc);
                assert(contents(self.undo@) =~= was.undo.drop_last());
                assert(contents(self.redo@) =~= was.redo.push(was.doc));
                true
            },
            None => false,
        }
    }

    /// Go one step forward again. Returns whether there was one.
    pub fn redo(&mut self) -> (r: bool)
        ensures
            r == (old(self)@.redo.len() > 0),
            final(self)@ == old(self)@.redone(),
    {
        let ghost was = self@;
        match self.redo.pop() {
            Some(next) => {
                let mut doc = next;
                core::mem::swap(&mut self.doc, &mut doc);
                self.undo.push(doc);
                assert(contents(self.redo@) =~= was.redo.drop_last());
                assert(contents(self.undo@) =~= was.undo.push(was.doc));
                true
            },
            None => false,
        }
    }

    /// Forget the last undo entry.
    pub(crate) fn forget_undo(&mut self)
        ensures
            final(self)@ == old(self)@.unrecorded(),
    {
        let ghost was = self@;
        let _ = self.undo.pop();
        assert(contents(self.undo@) =~= was.unrecorded().undo);
    }

    /// The body and the number within it of a picked face.
    pub fn locate_face(&self, global: u32) -> (r: Option<(usize, u32)>)
        ensures
            r == crate::mesh::located(self@.face_ranges, global),
    {
        crate::mesh::locate(&self.face_ranges, global)
    }

    /// The body and the number within it of a picked edge.
    pub fn locate_edge(&self, global: u32) -> (r: Option<(usize, u32)>)
        ensures
            r == crate::mesh::located(self@.edge_ranges, global),
    {
        crate::mesh::locate(&self.edge_ranges, global)
    }

    /// The feature behind a pick.
    pub(crate) fn body_of(&self, pick: Pick) -> (r: Option<FeatureId>)
        ensures
            r == self@.body_of(pick),
    {
        let at = match pick {
            Pick::Face(g) => self.locate_face(g),
            Pick::Edge(g) => self.locate_edge(g),
        };
        match at {
            Some((i, _)) => {
                if i < self.ui.visible.len() {
                    Some(self.ui.visible[i])
                } else {
                    None
                }
            },
            None => None,
        }
    }

    /// The feature behind the entity selected first.
    pub fn selected_body(&self) -> (r: Option<FeatureId>)
        ensures
            r == self@.selected_body(),
    {
        match self.selection.primary() {
            Some(pick) => self.body_of(pick),
            None => None,
        }
    }

    /// Add a feature and select it, keeping the document for undo.
    pub(crate) fn add_feature(&mut self, name: &str, kind: FeatureKind) -> (id: FeatureId)
        requires
            old(self)@.doc.history.next_id < u64::MAX,
        ensures
            id == FeatureId(old(self)@.doc.history.next_id),
            final(self)@ == old(self)@.with_feature(name@, kind@),
    {
        let before = self.doc.clone();
        self.record_undo(before);
        let id = self.doc.add(name, kind);
        self.ui.selected = Some(id);
        id
    }

    /// Combine the selected body with the other visible ones. Subtracting removes
    /// it from each of them; union and intersection make one body of all. Returns
    /// whether the document changed.
    pub fn apply_boolean(&mut self, op: BooleanOp) -> (r: bool)
        requires
            old(self)@.doc.history.next_id + old(self)@.ui.visible.len() <= u64::MAX,
        ensures
            r == old(self)@.combining() is Some,
            final(self)@ == old(self)@.combined(op),
    {
        let tool = match self.ui.selected {
            Some(tool) => tool,
            None => return false,
        };
        let ghost was = self@;
        let rest = match without(&self.ui.visible, tool) {
            Some(rest) => rest,
            None => return false,
        };
        if rest.len() == 0 {
            return false;
        }
        proof {
            was.ui.visible.lemma_filter_len(|v: FeatureId| v != tool);
        }
        let before = self.doc.clone();
        self.record_undo(before);
        match op {
            BooleanOp::Subtract => {
                let mut i: usize = 0;
                while i < rest.len()
                    invariant
                        i <= rest@.len(),
                        rest@ == others(was.ui.visible, tool),
                        was.doc.history.next_id + rest@.len() <= u64::MAX,
                        self@ == (ModelerModel {
                            doc: carved(was.doc, tool, rest@, i as nat),
                            ..was.saved()
                        }),
                        self@.doc.history.next_id == was.doc.history.next_id + i,
                        op == BooleanOp::Subtract,
                    decreases rest@.len() - i,
                {
                    self.doc.add("Subtract", FeatureKind::Boolean { op, target: rest[i], tool });
                    i += 1;
                }
                self.ui.selected = None;
            },
            _ => {
                let name = if op == BooleanOp::Union {
                    "Union"
                } else {
                    "Intersect"
                };
                let mut whole = tool;
                let mut i: usize = 0;
                while i < rest.len()
                    invariant
                        i <= rest@.len(),
                        rest@ == others(was.ui.visible, tool),
                        was.doc.history.next_id + rest@.len() <= u64::MAX,
                        self@ == (ModelerModel {
                            doc: folded(was.doc, op, name@, tool, rest@, i as nat).0,
                            ..was.saved()
                        }),
                        whole == folded(was.doc, op, name@, tool, rest@, i as nat).1,
                        self@.doc.history.next_id == was.doc.history.next_id + i,
                    decreases rest@.len() - i,
                {
                    whole = self.doc.add(
                        name,
                        FeatureKind::Boolean { op, target: whole, tool: rest[i] },
                    );
                    i += 1;
                }
                self.ui.selected = Some(whole);
            },
        }
        self.selection.clear();
        true
    }

    /// The plane of a sketch feature.
    pub fn sketch_plane(&self, source: FeatureId) -> (r: Option<SketchPlane>)
        ensures
            r == self@.sketch_plane(source),
    {
        match self.doc.history.get(source) {
            Some(f) => match &f.kind {
                FeatureKind::Sketch { plane, .. } => Some(*plane),
                FeatureKind::ConstraintSketch { plane, .. } => Some(*plane),
                _ => None,
            },
            None => None,
        }
    }

    /// Extrude a sketch by twenty millimetres toward the eye. `facing` is the
    /// projection onto the normal of [`Modeler::sketch_plane`] of the way from
    /// the plane to the eye: from behind, the distance is negative. Returns
    /// whether there was such a sketch.
    pub fn extrude_sketch(&mut self, source: FeatureId, facing: Scalar) -> (r: bool)
        requires
            old(self)@.doc.history.next_id < u64::MAX,
        ensures
            r == old(self)@.sketch_plane(source) is Some,
            final(self)@ == old(self)@.extruded(source, facing),
    {
        if self.sketch_plane(source).is_none() {
            return false;
        }
        let zero = Scalar::zero();
        let distance = if facing == zero || zero < facing {
            Scalar::from_bits(0x4034_0000_0000_0000)
        } else {
            Scalar::from_bits(0xc034_0000_0000_0000)
        };
        let _ = self.add_feature("Extrude", FeatureKind::Extrude { source, distance });
        true
    }

    /// The selected face whose edges can be filleted: its body and its number
    /// there.
    pub fn face_to_fillet(&self) -> (r: Option<(usize, u32)>)
        ensures
            r == self@.face_to_fillet(),
    {
        match self.selection.primary() {
            Some(Pick::Face(g)) => match self.locate_face(g) {
                Some((i, local)) => {
                    if i < self.ui.visible.len() {
                        Some((i, local))
                    } else {
                        None
                    }
                },
                None => None,
            },
            _ => None,
        }
    }

    /// Fillet the edges of the selected face, given a point on each, as one
    /// feature. Returns whether one was added.
    pub fn fillet_selected_face_edges(&mut self, edges: Vec<EdgeAnchor>) -> (r: bool)
        requires
            old(self)@.doc.history.next_id < u64::MAX,
        ensures
            r == (old(self)@.face_to_fillet() is Some && edges@.len() > 0),
            final(self)@ == old(self)@.face_filleted(edges@),
    {
        let (i, _) = match self.face_to_fillet() {
            Some(at) => at,
            None => return false,
        };
        if edges.len() == 0 {
            return false;
        }
        let source = self.ui.visible[i];
        let radius = Scalar::from_bits(0x4000_0000_0000_0000);
        let _ = self.add_feature("Fillet face", FeatureKind::Fillet { source, edges, radius });
        self.selection.clear();
        true
    }

    fn chosen_edges(&self) -> (r: Vec<EdgeAnchor>)
        ensures
            r@ == chosen_edges(self@.selection.selected, self@.edge_anchors),
    {
        let picks = self.selection.selected();
        let mut edges: Vec<EdgeAnchor> = Vec::new();
        let mut i: usize = 0;
        proof {
            assert(picks@.take(0) =~= seq![]);
        }
        while i < picks.len()
            invariant
                i <= picks@.len(),
                picks@ == self@.selection.selected,
                edges@ == chosen_edges(picks@.take(i as int), self@.edge_anchors),
            decreases picks@.len() - i,
        {
            proof {
                assert(picks@.take(i + 1).drop_last() =~= picks@.take(i as int));
            }
            if let Pick::Edge(g) = picks[i] {
                if let Some(point) = self.edge_anchors.get(&g) {
                    edges.push(EdgeAnchor { point: *point });
                }
            }
            i += 1;
        }
        proof {
            assert(picks@.take(i as int) =~= picks@);
        }
        edges
    }

    /// Fillet the selected edges, each where it was clicked, as one feature.
    /// Returns whether one was added.
    pub fn fillet_selected_edges(&mut self) -> (r: bool)
        requires
            old(self)@.doc.history.next_id < u64::MAX,
        ensures
            r == (old(self)@.selected_body() is Some && chosen_edges(
                old(self)@.selection.selected,
                old(self)@.edge_anchors,
            ).len() > 0),
            final(self)@ == old(self)@.edges_filleted(),
    {
        let source = match self.selected_body() {
            Some(source) => source,
            None => return false,
        };
        let edges = self.chosen_edges();
        if edges.len() == 0 {
            return false;
        }
        let name = edge_fillet_name(edges.len());
        let radius = Scalar::from_bits(0x4000_0000_0000_0000);
        let _ = self.add_feature(name.as_str(), FeatureKind::Fillet { source, edges, radius });
        self.selection.clear();
        self.edge_anchors.clear();
        true
    }

    /// Begin drawing on a plane.
    pub fn start_sketch(&mut self, plane: SketchPlane)
        ensures
            final(self)@ == (ModelerModel {
                session: Some(SessionModel::begun(plane)),
                ..old(self)@
            }),
    {
        self.sketch_session = Some(SketchSession::new(plane));
    }

    /// Begin drawing on a base plane, unless a sketch is being drawn already.
    pub fn enter_sketch(&mut self, plane: SketchPlane)
        ensures
            final(self)@ == (if old(self)@.session is None {
                ModelerModel { session: Some(SessionModel::begun(plane)), ..old(self)@ }
            } else {
                old(self)@
            }),
    {
        if self.sketch_session.is_none() {
            self.start_sketch(plane);
        }
    }

    /// Begin drawing on the selected face, if it is planar.
    pub fn sketch_on_selected_face(&mut self)
        ensures
            final(self)@ == (match old(self)@.selection.face_plane {
                Some(plane) => (ModelerModel {
                    session: Some(SessionModel::begun(plane)),
                    ..old(self)@
                }).deselected(),
                None => old(self)@,
            }),
    {
        if let Some(plane) = self.selection.face_plane {
            self.start_sketch(plane);
            self.selection.clear();
        }
    }

    /// Keep the sketch as a feature if it is a closed loop, and stop drawing.
    /// Returns whether the document changed.
    pub fn finish_sketch(&mut self) -> (r: bool)
        requires
            old(self)@.doc.history.next_id < u64::MAX,
            old(self)@.session matches Some(s) ==> s.sketch.loop_known(),
        ensures
            r == (old(self)@.session matches Some(s) && s.sketch.profile_loop() is Some),
            final(self)@ == old(self)@.sketch_finished(),
    {
        match self.sketch_session.take() {
            None => false,
            Some(session) => {
                if session.sketch.profile_loop().is_none() {
                    return false;
                }
                let _ = self.add_feature(
                    "Sketch",
                    FeatureKind::ConstraintSketch {
                        plane: session.plane,
                        sketch: session.sketch,
                    },
                );
                true
            },
        }
    }

    /// Carry out a sketch action. After the last one, and where the answer says
    /// so, the sketch is solved and handed back to
    /// [`SketchSession::solved`].
    pub fn apply_sketch_action(&mut self, action: SketchAction) -> (r: SketchStep)
        requires
            old(self)@.doc.history.next_id < u64::MAX,
            old(self)@.session matches Some(s) ==> s.sketch.loop_known(),
        ensures
            r == sketch_step(old(self)@, action),
            final(self)@ == sketched(old(self)@, action),
    {
        match action {
            SketchAction::Cancel => {
                self.sketch_session = None;
                SketchStep { changed: false, over: true, solve: false }
            },
            SketchAction::Finish => {
                let changed = self.finish_sketch();
                SketchStep { changed, over: true, solve: false }
            },
            SketchAction::SetTool(tool) => {
                if let Some(s) = self.sketch_session.as_mut() {
                    s.set_tool(tool);
                }
                SketchStep { changed: false, over: false, solve: false }
            },
            SketchAction::AddPoint(uv) => {
                if let Some(s) = self.sketch_session.as_mut() {
                    s.add_point(uv[0], uv[1]);
                }
                SketchStep { changed: false, over: false, solve: false }
            },
            SketchAction::CloseLoop => {
                if let Some(s) = self.sketch_session.as_mut() {
                    s.close_loop();
                }
                SketchStep { changed: false, over: false, solve: true }
            },
            SketchAction::PickAt { points, lines } => {
                if let Some(s) = self.sketch_session.as_mut() {
                    s.pick_entity(&points, &lines);
                }
                SketchStep { changed: false, over: false, solve: false }
            },
            SketchAction::Apply(constraint) => {
                if let Some(s) = self.sketch_session.as_mut() {
                    s.apply(constraint);
                }
                SketchStep { changed: false, over: false, solve: true }
            },
        }
    }

    /// Select what was clicked. `point` is where, and `face_plane` the plane of a
    /// clicked planar face.
    pub fn on_pick(
        &mut self,
        pick: Option<Pick>,
        point: Option<DVec3>,
        additive: bool,
        face_plane: Option<SketchPlane>,
    )
        ensures
            final(self)@ == old(self)@.picked(pick, point, additive, face_plane),
    {
        let plane = match pick {
            Some(Pick::Face(_)) => face_plane,
            _ => None,
        };
        self.selection.select(pick, additive, plane);
        if let (Some(Pick::Edge(g)), Some(p)) = (pick, point) {
            self.edge_anchors.insert(g, p);
        }
        self.keep_live_anchors();
        self.ui.selected = self.selected_body();
    }

    /// Forget the anchors of edges that are no longer selected.
    fn keep_live_anchors(&mut self)
        ensures
            final(self)@ == (ModelerModel {
                edge_anchors: old(self)@.edge_anchors.restrict(
                    live_edges(old(self)@.selection.selected),
                ),
                ..old(self)@
            }),
    {
        let mut kept: HashMap<u32, DVec3> = HashMap::new();
        let picks = self.selection.selected();
        let mut i: usize = 0;
        proof {
            assert(kept@ =~= self@.edge_anchors.restrict(live_edges(picks@.take(0))));
        }
        while i < picks.len()
            invariant
                i <= picks@.len(),
                picks@ == self@.selection.selected,
                kept@ == self@.edge_anchors.restrict(live_edges(picks@.take(i as int))),
            decreases picks@.len() - i,
        {
            let ghost before = kept@;
            proof {
                assert forall|p: Pick| #[trigger] picks@.take(i + 1).contains(p) <==> picks@.take(
                    i as int,
                ).contains(p) || p == picks@[i as int] by {
                    let (now, next) = (picks@.take(i as int), picks@.take(i + 1));
                    assert(next[i as int] == picks@[i as int]);
                    if now.contains(p) {
                        let k = now.index_of(p);
                        assert(next[k] == p);
                    }
                    if next.contains(p) && p != picks@[i as int] {
                        let k = next.index_of(p);
                        assert(now[k] == p);
                    }
                }
            }
            if let Pick::Edge(g) = picks[i] {
                if let Some(point) = self.edge_anchors.get(&g) {
                    kept.insert(g, *point);
                }
            }
            proof {
                assert(kept@ =~= self@.edge_anchors.restrict(live_edges(picks@.take(i + 1))));
            }
            i += 1;
        }
        proof {
            assert(picks@.take(i as int) =~= picks@);
        }
        self.edge_anchors = kept;
    }

    /// Note what is under the cursor.
    pub fn on_hover(&mut self, pick: Option<Pick>)
        ensures
            final(self)@ == (ModelerModel {
                selection: SelectionModel { hovered: pick, ..old(self)@.selection },
                ..old(self)@
            }),
    {
        self.selection.hover(pick);
    }

    /// Whether a click selects: not while drawing a sketch.
    pub fn wants_picking(&self) -> (r: bool)
        ensures
            r == self@.session is None,
    {
        self.sketch_session.is_none()
    }

    /// What is highlighted: the selection and what is under the cursor.
    pub fn highlights(&self) -> (r: Highlights)
        ensures
            r.selected@ == self@.selection.selected,
            r.hovered == self@.selection.hovered,
    {
        Highlights {
            selected: crate::sketch2d::copied(&self.selection.selected),
            hovered: self.selection.hovered,
        }
    }

    /// The bar to show for the selection. None is shown while drawing.
    pub fn selection_bar(&self) -> (r: SelectionBar)
        ensures
            ({
                let s = self@.selection;
                let edges = s.selected.len() > 0 && forall|i: int|
                    0 <= i < s.selected.len() ==> #[trigger] s.selected[i] is Edge;
                if self@.session is Some || !(s.lone_face() || edges) {
                    r is Hidden
                } else if s.lone_face() {
                    r == (SelectionBar::Face { can_sketch: s.face_plane is Some })
                } else {
                    r matches SelectionBar::Edges { label, action } && label@ == edges_label(
                        s.selected.len(),
                    ) && action@ == edges_action(s.selected.len())
                }
            }),
    {
        if self.sketch_session.is_some() {
            return SelectionBar::Hidden;
        }
        if self.selection.is_lone_face() {
            return SelectionBar::Face { can_sketch: self.selection.can_sketch_on_face() };
        }
        if !self.selection.is_edges() {
            return SelectionBar::Hidden;
        }
        let n: usize = self.selection.selected().len();
        if n == 1 {
            SelectionBar::Edges {
                label: String::from_str("1 edge selected"),
                action: String::from_str("⌒ Fillet this edge"),
            }
        } else {
            let count = crate::text::decimal_text(n as u64);
            let mut label = String::from_str(count.as_str());
            label.append(" edges selected");
            let mut action = String::from_str("⌒ Fillet these ");
            action.append(count.as_str());
            action.append(" edges");
            SelectionBar::Edges { label, action }
        }
    }

    /// Before the panel is shown: whether there is anything to undo or redo, and
    /// the document to keep if the panel changes it. During a continuous edit
    /// none is kept, so that all of it becomes one undo entry.
    pub fn begin_panel(&mut self) -> (before: Option<Document>)
        ensures
            final(self)@ == (ModelerModel {
                ui: StateModel {
                    can_undo: old(self)@.undo.len() > 0,
                    can_redo: old(self)@.redo.len() > 0,
                    ..old(self)@.ui
                },
                ..old(self)@
            }),
            match before {
                Some(doc) => !old(self)@.editing && doc@ == old(self)@.doc,
                None => old(self)@.editing,
            },
    {
        self.ui.can_undo = self.undo.len() > 0;
        self.ui.can_redo = self.redo.len() > 0;
        if self.editing {
            None
        } else {
            Some(self.doc.clone())
        }
    }

    /// After the panel was shown: keep the document as it was before, if the
    /// panel changed it and an edit was not under way already.
    pub fn end_panel(&mut self, before: Option<Document>, changed: bool)
        ensures
            final(self)@ == old(self)@.panel_closed(
                match before {
                    Some(doc) => Some(doc@),
                    None => None,
                },
                changed,
            ),
    {
        if changed {
            if let Some(doc) = before {
                self.record_undo(doc);
            }
        }
        self.editing = changed;
    }

    /// Undo, redo, or both in this order. Returns whether the document changed.
    pub fn step(&mut self, undo: bool, redo: bool) -> (r: bool)
        ensures
            ({
                let m = old(self)@;
                let back = if undo {
                    m.undone()
                } else {
                    m
                };
                &&& r == ((undo && m.undo.len() > 0) || (redo && back.redo.len() > 0))
                &&& final(self)@ == (if redo {
                    back.redone()
                } else {
                    back
                })
            }),
    {
        let mut changed = false;
        if undo {
            changed = self.undo();
        }
        if redo {
            let forward = self.redo();
            changed = changed || forward;
        }
        changed
    }

    /// Replace the document, forgetting everything that belonged to the old one.
    pub fn open_document(&mut self, doc: Document)
        ensures
            final(self)@ == old(self)@.opened(doc@),
    {
        self.doc = doc;
        self.undo.clear();
        self.redo.clear();
        self.selection.clear();
        self.edge_anchors.clear();
        self.transform = None;
        self.manipulation = None;
        self.resize = None;
        self.sketch_session = None;
        self.editing = false;
        self.ui.selected = None;
        assert(contents(self.undo@) =~= seq![]);
        assert(contents(self.redo@) =~= seq![]);
    }

    /// Show what a rebuild came to: the visible bodies, where their face and edge
    /// numbers start, and the box of each, or why it has no mesh.
    pub fn show(
        &mut self,
        visible: Vec<FeatureId>,
        problems: Vec<(FeatureId, String)>,
        face_ranges: Vec<u32>,
        edge_ranges: Vec<u32>,
        boxes: &Vec<Result<BodyBox, KernelError>>,
    )
        ensures
            final(self)@ == old(self)@.showing(
                visible@,
                crate::panel::texts(problems@),
                face_ranges@,
                edge_ranges@,
                boxes@,
            ),
    {
        let mut errors = problems;
        let mut body_boxes: Vec<BodyBox> = Vec::new();
        let mut i: usize = 0;
        proof {
            assert(boxes@.take(0) =~= seq![]);
            assert(crate::panel::texts(errors@) =~= crate::panel::texts(problems@) + meshless(
                boxes@.take(0),
            ));
            assert(body_boxes@ =~= shown_boxes(boxes@.take(0)));
        }
        while i < boxes.len()
            invariant
                i <= boxes@.len(),
                crate::panel::texts(errors@) == crate::panel::texts(problems@) + meshless(
                    boxes@.take(i as int),
                ),
                body_boxes@ == shown_boxes(boxes@.take(i as int)),
            decreases boxes@.len() - i,
        {
            let ghost (told, drawn) = (errors@, body_boxes@);
            proof {
                assert(boxes@.take(i + 1).drop_last() =~= boxes@.take(i as int));
            }
            match &boxes[i] {
                Ok(b) => {
                    body_boxes.push(*b);
                },
                Err(e) => {
                    body_boxes.push(BodyBox::none());
                    errors.push((FeatureId(0), String::from_str(e.0.as_str())));
                    assert(crate::panel::texts(errors@) =~= crate::panel::texts(told).push(
                        (FeatureId(0), e.0@),
                    ));
                },
            }
            i += 1;
            proof {
                assert(crate::panel::texts(errors@) =~= crate::panel::texts(problems@) + meshless(
                    boxes@.take(i as int),
                ));
                assert(body_boxes@ =~= shown_boxes(boxes@.take(i as int)));
            }
        }
        proof {
            assert(boxes@.take(i as int) =~= boxes@);
        }
        self.ui.visible = visible;
        self.ui.errors = errors;
        self.face_ranges = face_ranges;
        self.edge_ranges = edge_ranges;
        self.body_boxes = body_boxes;
    }

    /// Say how an export, a save or the like ended.
    pub fn report(&mut self, status: String)
        ensures
            final(self)@ == (ModelerModel { status: Some(status@), ..old(self)@ }),
    {
        self.status = Some(status);
    }
}

/// The visible bodies other than `tool`, if `tool` is one of them.
fn without(visible: &Vec<FeatureId>, tool: FeatureId) -> (r: Option<Vec<FeatureId>>)
    ensures
        match r {
            Some(rest) => visible@.contains(tool) && rest@ == others(visible@, tool),
            None => !visible@.contains(tool),
        },
{
    let mut rest: Vec<FeatureId> = Vec::new();
    let mut found = false;
    let mut i: usize = 0;
    proof {
        reveal(Seq::filter);
        assert(others(visible@.take(0), tool) =~= seq![]);
    }
    while i < visible.len()
        invariant
            i <= visible@.len(),
            rest@ == others(visible@.take(i as int), tool),
            found == visible@.take(i as int).contains(tool),
        decreases visible@.len() - i,
    {
        proof {
            reveal(Seq::filter);
            let (now, next) = (visible@.take(i as int), visible@.take(i + 1));
            assert(next.drop_last() =~= now);
            assert(next.last() == visible@[i as int]);
            if now.contains(tool) {
                let k = now.index_of(tool);
                assert(next[k] == tool);
            }
            if next.contains(tool) && visible@[i as int] != tool {
                let k = next.index_of(tool);
                assert(now[k] == tool);
            }
            if visible@[i as int] == tool {
                assert(next[i as int] == tool);
            }
        }
        if visible[i] == tool {
            found = true;
        } else {
            rest.push(visible[i]);
        }
        i += 1;
    }
    proof {
        assert(visible@.take(i as int) =~= visible@);
    }
    if found {
        Some(rest)
    } else {
        None
    }
}

} // verus!
