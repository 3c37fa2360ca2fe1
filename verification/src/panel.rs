//! The history panel.
//!
//! The panel lists the features with their problems and edits the document
//! through [`PanelEvent`]s: moving the rollback bar, suppressing, selecting,
//! deleting, reordering, and editing the selected feature's parameters.

use crate::document::{Document, DocumentModel};
use crate::features::{BooleanOp, FeatureId, FeatureKind, FeatureModel, KindModel};
use crate::history::HistoryModel;
use crate::scalar::{DVec3, Scalar};
use vstd::prelude::*;

verus! {

/// What the panel keeps between frames, and what it is told after each rebuild.
#[derive(Debug)]
pub struct HistoryState {
    /// The selected feature.
    pub selected: Option<FeatureId>,
    /// What went wrong at the last rebuild, by feature.
    pub errors: Vec<(FeatureId, String)>,
    /// The bodies shown after the last rebuild.
    pub visible: Vec<FeatureId>,
    pub can_undo: bool,
    pub can_redo: bool,
}

/// What a [`HistoryState`] holds.
#[verifier::ext_equal]
pub struct StateModel {
    pub selected: Option<FeatureId>,
    pub errors: Seq<(FeatureId, Seq<char>)>,
    pub visible: Seq<FeatureId>,
    pub can_undo: bool,
    pub can_redo: bool,
}

/// The messages as text.
pub open spec fn texts(errors: Seq<(FeatureId, String)>) -> Seq<(FeatureId, Seq<char>)> {
    Seq::new(errors.len(), |i: int| (errors[i].0, errors[i].1@))
}

impl View for HistoryState {
    type V = StateModel;

    open spec fn view(&self) -> StateModel {
        StateModel {
            selected: self.selected,
            errors: texts(self.errors@),
            visible: self.visible@,
            can_undo: self.can_undo,
            can_redo: self.can_redo,
        }
    }
}

/// The first message for a feature, at or after `from`.
pub open spec fn message_for(
    errors: Seq<(FeatureId, Seq<char>)>,
    id: FeatureId,
    from: int,
) -> Option<Seq<char>>
    decreases errors.len() - from,
{
    if from < 0 || from >= errors.len() {
        None
    } else if errors[from].0 == id {
        Some(errors[from].1)
    } else {
        message_for(errors, id, from + 1)
    }
}

impl Default for HistoryState {
    fn default() -> (r: HistoryState)
        ensures
            r@ == (StateModel {
                selected: None,
                errors: seq![],
                visible: seq![],
                can_undo: false,
                can_redo: false,
            }),
    {
        let r = HistoryState {
            selected: None,
            errors: Vec::new(),
            visible: Vec::new(),
            can_undo: false,
            can_redo: false,
        };
        assert(r@.errors =~= seq![]);
        r
    }
}

impl HistoryState {
    /// The first message for a feature.
    pub fn error_for(&self, id: FeatureId) -> (r: Option<&str>)
        ensures
            match r {
                Some(m) => message_for(self@.errors, id, 0) == Some(m@),
                None => message_for(self@.errors, id, 0) is None,
            },
    {
        let mut i: usize = 0;
        while i < self.errors.len()
            invariant
                i <= self.errors@.len(),
                message_for(self@.errors, id, 0) == message_for(self@.errors, id, i as int),
            decreases self.errors@.len() - i,
        {
            if self.errors[i].0 == id {
                return Some(self.errors[i].1.as_str());
            }
            i += 1;
        }
        None
    }
}

/// How a row's label is shown.
#[derive(Clone, Copy, PartialEq, Eq, Debug, Structural)]
pub enum RowStyle {
    /// The feature failed.
    Error,
    /// The feature is suppressed or behind the bar.
    Weak,
    Normal,
}

/// A row of the panel.
#[derive(Debug)]
pub struct PanelRow {
    pub id: FeatureId,
    /// The feature's name and what it does.
    pub label: String,
    pub suppressed: bool,
    pub style: RowStyle,
    pub selected: bool,
    /// What went wrong, shown on hovering.
    pub message: Option<String>,
    pub can_move_up: bool,
    pub can_move_down: bool,
}

/// What a [`PanelRow`] says.
#[verifier::ext_equal]
pub struct RowModel {
    pub id: FeatureId,
    pub label: Seq<char>,
    pub suppressed: bool,
    pub style: RowStyle,
    pub selected: bool,
    pub message: Option<Seq<char>>,
    pub can_move_up: bool,
    pub can_move_down: bool,
}

impl View for PanelRow {
    type V = RowModel;

    open spec fn view(&self) -> RowModel {
        RowModel {
            id: self.id,
            label: self.label@,
            suppressed: self.suppressed,
            style: self.style,
            selected: self.selected,
            message: match self.message {
                Some(m) => Some(m@),
                None => None,
            },
            can_move_up: self.can_move_up,
            can_move_down: self.can_move_down,
        }
    }
}

/// The row of the feature at `i`. A failed feature shows as failed, whatever
/// else holds of it.
pub open spec fn row(doc: DocumentModel, state: StateModel, i: int) -> RowModel {
    let f = doc.history.features[i];
    let message = message_for(state.errors, f.id, 0);
    RowModel {
        id: f.id,
        label: f.name + "  ·  "@ + f.kind.label(),
        suppressed: f.suppressed,
        style: if message is Some {
            RowStyle::Error
        } else if i >= doc.active_len() || f.suppressed {
            RowStyle::Weak
        } else {
            RowStyle::Normal
        },
        selected: state.selected == Some(f.id),
        message,
        can_move_up: i > 0,
        can_move_down: i < doc.history.features.len() - 1,
    }
}

fn row_at(doc: &Document, state: &HistoryState, i: usize) -> (r: PanelRow)
    requires
        i < doc@.history.features.len(),
    ensures
        r@ == row(doc@, state@, i as int),
{
    let features = doc.history.features();
    let f = &features[i];
    let mut label = String::from_str(f.name.as_str());
    label.append("  ·  ");
    label.append(f.kind.kind_name());
    let message = match state.error_for(f.id) {
        Some(m) => Some(String::from_str(m)),
        None => None,
    };
    let style = if message.is_some() {
        RowStyle::Error
    } else if i >= doc.rollback() || f.suppressed {
        RowStyle::Weak
    } else {
        RowStyle::Normal
    };
    let selected = match state.selected {
        Some(s) => s == f.id,
        None => false,
    };
    let total: usize = features.len();
    proof {
        assert(crate::history::models(features@)[i as int] == f@);
        assert(features@.len() == doc@.history.features.len());
    }
    PanelRow {
        id: f.id,
        label,
        suppressed: f.suppressed,
        style,
        selected,
        message,
        can_move_up: i > 0,
        can_move_down: i < total - 1,
    }
}

/// The rows of the panel, in history order.
pub fn rows(doc: &Document, state: &HistoryState) -> (r: Vec<PanelRow>)
    ensures
        r@.len() == doc@.history.features.len(),
        forall|i: int| 0 <= i < r@.len() ==> (#[trigger] r@[i])@ == row(doc@, state@, i),
{
    let n: usize = doc.history.len();
    let mut r: Vec<PanelRow> = Vec::new();
    let mut i: usize = 0;
    while i < n
        invariant
            i <= n == doc@.history.features.len(),
            r@.len() == i,
            forall|k: int| 0 <= k < i ==> (#[trigger] r@[k])@ == row(doc@, state@, k),
        decreases n - i,
    {
        r.push(row_at(doc, state, i));
        i += 1;
    }
    r
}

/// The line for a problem: the feature's name, or its id if it is gone, and the
/// message.
pub open spec fn problem(doc: DocumentModel, id: FeatureId, message: Seq<char>) -> Seq<char> {
    let name = match doc.history.index(id) {
        Some(i) => doc.history.features[i].name,
        None => crate::history::id_text(id),
    };
    "• "@ + name + ": "@ + message
}

/// The line for a problem.
pub fn problem_text(doc: &Document, id: FeatureId, message: &str) -> (r: String)
    ensures
        r@ == problem(doc@, id, message@),
{
    let mut r = String::from_str("• ");
    match doc.history.get(id) {
        Some(f) => r.append(f.name.as_str()),
        None => crate::history::push_id(&mut r, id),
    }
    r.append(": ");
    r.append(message);
    r
}

/// The line under the document's name.
pub fn count_text(doc: &Document) -> (r: String)
    ensures
        r@ == crate::text::decimal(doc@.history.features.len()) + " features"@,
{
    let mut r = crate::text::decimal_text(doc.history.len() as u64);
    r.append(" features");
    r
}

impl KindModel {
    /// The lengths the panel edits, with their labels.
    pub open spec fn parameters(self) -> Seq<(&'static str, Scalar)> {
        match self {
            KindModel::Box { size } => seq![("X", size.x), ("Y", size.y), ("Z", size.z)],
            KindModel::Cylinder { radius, height } => seq![("Radius", radius), ("Height", height)],
            KindModel::Sphere { radius } => seq![("Radius", radius)],
            KindModel::Translate { offset, .. } => seq![
                ("dX", offset.x),
                ("dY", offset.y),
                ("dZ", offset.z),
            ],
            KindModel::FilletAll { radius, .. } => seq![("Radius", radius)],
            _ => seq![],
        }
    }

    /// The operation with one of its parameters replaced.
    pub open spec fn with_parameter(self, k: int, value: Scalar) -> KindModel {
        match self {
            KindModel::Box { size } => KindModel::Box { size: with_component(size, k, value) },
            KindModel::Cylinder { radius, height } => if k == 0 {
                KindModel::Cylinder { radius: value, height }
            } else if k == 1 {
                KindModel::Cylinder { radius, height: value }
            } else {
                self
            },
            KindModel::Sphere { .. } => if k == 0 {
                KindModel::Sphere { radius: value }
            } else {
                self
            },
            KindModel::Translate { source, offset } => KindModel::Translate {
                source,
                offset: with_component(offset, k, value),
            },
            KindModel::FilletAll { source, .. } => if k == 0 {
                KindModel::FilletAll { source, radius: value }
            } else {
                self
            },
            _ => self,
        }
    }
}

/// The vector with one of its components replaced.
pub open spec fn with_component(v: DVec3, k: int, value: Scalar) -> DVec3 {
    if k == 0 {
        DVec3 { x: value, ..v }
    } else if k == 1 {
        DVec3 { y: value, ..v }
    } else if k == 2 {
        DVec3 { z: value, ..v }
    } else {
        v
    }
}

fn set_component(v: DVec3, k: usize, value: Scalar) -> (r: DVec3)
    ensures
        r == with_component(v, k as int, value),
{
    if k == 0 {
        DVec3 { x: value, y: v.y, z: v.z }
    } else if k == 1 {
        DVec3 { x: v.x, y: value, z: v.z }
    } else if k == 2 {
        DVec3 { x: v.x, y: v.y, z: value }
    } else {
        v
    }
}

impl FeatureKind {
    /// The lengths the panel edits, with their labels.
    pub fn parameters(&self) -> (r: Vec<(&'static str, Scalar)>)
        ensures
            r@ == self@.parameters(),
    {
        match self {
            FeatureKind::Box { size } => vec![("X", size.x), ("Y", size.y), ("Z", size.z)],
            FeatureKind::Cylinder { radius, height } => vec![
                ("Radius", *radius),
                ("Height", *height),
            ],
            FeatureKind::Sphere { radius } => vec![("Radius", *radius)],
            FeatureKind::Translate { offset, .. } => vec![
                ("dX", offset.x),
                ("dY", offset.y),
                ("dZ", offset.z),
            ],
            FeatureKind::FilletAll { radius, .. } => vec![("Radius", *radius)],
            _ => Vec::new(),
        }
    }

    /// Replace the parameter with the given index, if there is one.
    pub fn set_parameter(&mut self, k: usize, value: Scalar)
        ensures
            final(self)@ == old(self)@.with_parameter(k as int, value),
    {
        match self {
            FeatureKind::Box { size } => {
                *size = set_component(*size, k, value);
            },
            FeatureKind::Cylinder { radius, height } => {
                if k == 0 {
                    *radius = value;
                } else if k == 1 {
                    *height = value;
                }
            },
            FeatureKind::Sphere { radius } => {
                if k == 0 {
                    *radius = value;
                }
            },
            FeatureKind::Translate { offset, .. } => {
                *offset = set_component(*offset, k, value);
            },
            FeatureKind::FilletAll { radius, .. } => {
                if k == 0 {
                    *radius = value;
                }
            },
            _ => {},
        }
    }
}

/// The name of a boolean operation.
pub fn operation_name(op: BooleanOp) -> (r: &'static str)
    ensures
        r == (match op {
            BooleanOp::Union => "Union",
            BooleanOp::Subtract => "Subtract",
            BooleanOp::Intersect => "Intersect",
        }),
{
    match op {
        BooleanOp::Union => "Union",
        BooleanOp::Subtract => "Subtract",
        BooleanOp::Intersect => "Intersect",
    }
}

/// Something done in the panel.
#[derive(Clone, Copy, Debug)]
pub enum PanelEvent {
    /// The bar was dragged.
    SetRollback(usize),
    /// The button that moves the bar to the tip.
    RollToTip,
    /// The check box of a row.
    SetSuppressed(FeatureId, bool),
    /// The label of a row.
    Click(FeatureId),
    /// The bin of a row.
    Delete(FeatureId),
    /// The down arrow of a row.
    MoveDown(FeatureId),
    /// The up arrow of a row.
    MoveUp(FeatureId),
    /// A parameter of the selected feature.
    SetParameter(usize, Scalar),
    /// The operation of the selected feature.
    SetOperation(BooleanOp),
}

/// The history with one feature's place exchanged with a neighbour's, as the
/// arrows ask. The outermost arrows do nothing.
pub open spec fn nudged(history: HistoryModel, id: FeatureId, down: bool) -> HistoryModel {
    match history.index(id) {
        None => history,
        Some(i) => if down && i < history.features.len() - 1 {
            history.reordered(id, i + 1)
        } else if !down && i > 0 {
            history.reordered(id, i - 1)
        } else {
            history
        },
    }
}

/// Whether an arrow of the feature's row can be clicked.
pub open spec fn can_nudge(history: HistoryModel, id: FeatureId, down: bool) -> bool {
    history.index(id) matches Some(i) && if down {
        i < history.features.len() - 1
    } else {
        i > 0
    }
}

/// The operation of the selected feature.
pub open spec fn selected_kind(doc: DocumentModel, state: StateModel) -> Option<KindModel> {
    match state.selected {
        Some(id) => doc.history.kind_of(id),
        None => None,
    }
}

/// The document after a panel event.
pub open spec fn edited(doc: DocumentModel, state: StateModel, event: PanelEvent) -> DocumentModel {
    match event {
        PanelEvent::SetRollback(position) => doc.rolled_to(position as nat),
        PanelEvent::RollToTip => if doc.active_len() == doc.history.features.len() {
            doc
        } else {
            doc.at_tip()
        },
        PanelEvent::SetSuppressed(id, suppressed) => DocumentModel {
            history: doc.history.with_suppressed(id, suppressed),
            ..doc
        },
        PanelEvent::Click(_) => doc,
        PanelEvent::Delete(id) => DocumentModel { history: doc.history.without(id), ..doc },
        PanelEvent::MoveDown(id) => DocumentModel { history: nudged(doc.history, id, true), ..doc },
        PanelEvent::MoveUp(id) => DocumentModel { history: nudged(doc.history, id, false), ..doc },
        PanelEvent::SetParameter(k, value) => match selected_kind(doc, state) {
            Some(kind) => DocumentModel {
                history: doc.history.with_kind(
                    state.selected->Some_0,
                    kind.with_parameter(k as int, value),
                ),
                ..doc
            },
            None => doc,
        },
        PanelEvent::SetOperation(op) => match selected_kind(doc, state) {
            Some(KindModel::Boolean { target, tool, .. }) => DocumentModel {
                history: doc.history.with_kind(
                    state.selected->Some_0,
                    KindModel::Boolean { op, target, tool },
                ),
                ..doc
            },
            _ => doc,
        },
    }
}

/// The selected feature after a panel event: a click on the selected row
/// deselects it, and so does its deletion.
pub open spec fn reselected(state: StateModel, event: PanelEvent) -> Option<FeatureId> {
    match event {
        PanelEvent::Click(id) => if state.selected == Some(id) {
            None
        } else {
            Some(id)
        },
        PanelEvent::Delete(id) => if state.selected == Some(id) {
            None
        } else {
            state.selected
        },
        _ => state.selected,
    }
}

/// Whether the geometry has to be rebuilt after a panel event.
pub open spec fn rebuilds(doc: DocumentModel, state: StateModel, event: PanelEvent) -> bool {
    match event {
        PanelEvent::SetRollback(_) => true,
        PanelEvent::RollToTip => doc.active_len() != doc.history.features.len(),
        PanelEvent::SetSuppressed(_, _) => true,
        PanelEvent::Click(_) => false,
        PanelEvent::Delete(_) => true,
        PanelEvent::MoveDown(id) => can_nudge(doc.history, id, true),
        PanelEvent::MoveUp(id) => can_nudge(doc.history, id, false),
        PanelEvent::SetParameter(k, _) => selected_kind(doc, state) matches Some(kind) && k
            < kind.parameters().len(),
        PanelEvent::SetOperation(_) => selected_kind(doc, state) matches Some(kind)
            && kind is Boolean,
    }
}

fn nudge(doc: &mut Document, id: FeatureId, down: bool) -> (r: bool)
    ensures
        final(doc)@ == (DocumentModel {
            history: nudged(old(doc)@.history, id, down),
            ..old(doc)@
        }),
        r == can_nudge(old(doc)@.history, id, down),
{
    proof {
        crate::history::lemma_position(doc@.history.features, id, 0);
    }
    match doc.history.index_of(id) {
        None => false,
        Some(i) => {
            let n: usize = doc.history.len();
            if down && i < n - 1 {
                let _ = doc.history.reorder(id, i + 1);
                true
            } else if !down && i > 0 {
                let _ = doc.history.reorder(id, i - 1);
                true
            } else {
                false
            }
        },
    }
}

fn edit_selected(doc: &mut Document, state: &HistoryState, k: usize, value: Scalar) -> (r: bool)
    ensures
        final(doc)@ == edited(old(doc)@, state@, PanelEvent::SetParameter(k, value)),
        r == rebuilds(old(doc)@, state@, PanelEvent::SetParameter(k, value)),
{
    match state.selected {
        None => false,
        Some(id) => match doc.history.get_mut(id) {
            None => false,
            Some(f) => {
                let r = k < f.kind.parameters().len();
                f.kind.set_parameter(k, value);
                r
            },
        },
    }
}

fn choose_operation(doc: &mut Document, state: &HistoryState, op: BooleanOp) -> (r: bool)
    ensures
        final(doc)@ == edited(old(doc)@, state@, PanelEvent::SetOperation(op)),
        r == rebuilds(old(doc)@, state@, PanelEvent::SetOperation(op)),
{
    match state.selected {
        None => false,
        Some(id) => {
            proof {
                crate::history::lemma_position(doc@.history.features, id, 0);
            }
            let is_boolean = match doc.history.get(id) {
                Some(f) => match f.kind {
                    FeatureKind::Boolean { .. } => true,
                    _ => false,
                },
                None => false,
            };
            if !is_boolean {
                return false;
            }
            if let Some(f) = doc.history.get_mut(id) {
                if let FeatureKind::Boolean { op: current, .. } = &mut f.kind {
                    *current = op;
                }
            }
            true
        },
    }
}

/// Carry out a panel event. Returns whether the geometry has to be rebuilt.
pub fn apply_event(doc: &mut Document, state: &mut HistoryState, event: PanelEvent) -> (r: bool)
    ensures
        final(doc)@ == edited(old(doc)@, old(state)@, event),
        final(state)@ == (StateModel {
            selected: reselected(old(state)@, event),
            ..old(state)@
        }),
        r == rebuilds(old(doc)@, old(state)@, event),
{
    match event {
        PanelEvent::SetRollback(position) => {
            doc.set_rollback(position);
            true
        },
        PanelEvent::RollToTip => {
            if doc.is_at_tip() {
                false
            } else {
                doc.rollback_to_tip();
                true
            }
        },
        PanelEvent::SetSuppressed(id, suppressed) => {
            doc.history.set_suppressed(id, suppressed);
            true
        },
        PanelEvent::Click(id) => {
            let same = match state.selected {
                Some(s) => s == id,
                None => false,
            };
            state.selected = if same {
                None
            } else {
                Some(id)
            };
            false
        },
        PanelEvent::Delete(id) => {
            doc.history.remove(id);
            let same = match state.selected {
                Some(s) => s == id,
                None => false,
            };
            if same {
                state.selected = None;
            }
            true
        },
        PanelEvent::MoveDown(id) => nudge(doc, id, true),
        PanelEvent::MoveUp(id) => nudge(doc, id, false),
        PanelEvent::SetParameter(k, value) => edit_selected(doc, state, k, value),
        PanelEvent::SetOperation(op) => choose_operation(doc, state, op),
    }
}

/// A parameter reads back as it was set, and the others stay.
pub proof fn law_parameters_read_back(kind: KindModel, k: int, value: Scalar)
    requires
        0 <= k < kind.parameters().len(),
    ensures
        kind.with_parameter(k, value).parameters() == kind.parameters().update(
            k,
            (kind.parameters()[k].0, value),
        ),
        kind.with_parameter(k, value).inputs() == kind.inputs(),
{
    assert(kind.with_parameter(k, value).parameters() =~= kind.parameters().update(
        k,
        (kind.parameters()[k].0, value),
    ));
}

/// Nothing done in the panel short of deleting breaks the references: what pointed
/// backward still does after selecting, editing parameters, suppressing, moving the
/// bar or reordering.
pub proof fn law_panel_edits_keep_references(
    doc: DocumentModel,
    state: StateModel,
    event: PanelEvent,
)
    requires
        crate::history::sound(doc.history.features),
        !(event is Delete),
    ensures
        crate::history::sound(edited(doc, state, event).history.features),
{
    let after = edited(doc, state, event).history;
    match event {
        PanelEvent::SetSuppressed(id, _) => {
            crate::history::lemma_position(doc.history.features, id, 0);
            lemma_same_shape(doc.history.features, after.features);
        },
        PanelEvent::SetParameter(..) => {
            if let Some(id) = state.selected {
                crate::history::lemma_position(doc.history.features, id, 0);
            }
            lemma_same_shape(doc.history.features, after.features);
        },
        PanelEvent::SetOperation(..) => {
            if let Some(id) = state.selected {
                crate::history::lemma_position(doc.history.features, id, 0);
            }
            lemma_same_shape(doc.history.features, after.features);
        },
        PanelEvent::MoveDown(_) => {
            crate::history_laws::law_validation_is_soundness(after.features);
        },
        PanelEvent::MoveUp(_) => {
            crate::history_laws::law_validation_is_soundness(after.features);
        },
        _ => {},
    }
}

/// Features with the same ids and inputs are sound together.
proof fn lemma_same_shape(a: Seq<FeatureModel>, b: Seq<FeatureModel>)
    requires
        crate::history::sound(a),
        a.len() == b.len(),
        forall|i: int|
            0 <= i < a.len() ==> (#[trigger] a[i]).id == b[i].id && a[i].kind.inputs()
                == b[i].kind.inputs(),
    ensures
        crate::history::sound(b),
{
    assert forall|i: int, k: int|
        #![trigger b[i].kind.inputs()[k]]
        0 <= i < b.len() && 0 <= k < b[i].kind.inputs().len() implies crate::history::backward(
        b,
        i,
        b[i].kind.inputs()[k],
    ) by {
        let input = b[i].kind.inputs()[k];
        assert(a[i].kind.inputs()[k] == input);
        assert(crate::history::backward(a, i, a[i].kind.inputs()[k]));
        lemma_same_position(a, b, input, 0);
    }
}

/// Features with the same ids stand in the same places.
proof fn lemma_same_position(
    a: Seq<FeatureModel>,
    b: Seq<FeatureModel>,
    id: FeatureId,
    from: int,
)
    requires
        0 <= from,
        a.len() == b.len(),
        forall|i: int| 0 <= i < a.len() ==> (#[trigger] a[i]).id == b[i].id,
    ensures
        crate::history::position(a, id, from) == crate::history::position(b, id, from),
    decreases a.len() - from,
{
    if from < a.len() && a[from].id != id {
        lemma_same_position(a, b, id, from + 1);
    }
}

/// The panel shows and edits an operation's own lengths, each under its own label, and
/// those of no other.
pub proof fn law_parameters_are_the_operations_own(kind: KindModel, k: int, value: Scalar)
    ensures
        match kind {
            KindModel::Box { size } => {
                &&& kind.parameters() == seq![("X", size.x), ("Y", size.y), ("Z", size.z)]
                &&& kind.with_parameter(k, value) matches KindModel::Box { size: now } && now.x == (
                if k == 0 {
                    value
                } else {
                    size.x
                }) && now.y == (if k == 1 {
                    value
                } else {
                    size.y
                }) && now.z == (if k == 2 {
                    value
                } else {
                    size.z
                })
            },
            KindModel::Cylinder { radius, height } => {
                &&& kind.parameters() == seq![("Radius", radius), ("Height", height)]
                &&& kind.with_parameter(k, value) matches KindModel::Cylinder {
                    radius: r,
                    height: h,
                } && r == (if k == 0 {
                    value
                } else {
                    radius
                }) && h == (if k == 1 {
                    value
                } else {
                    height
                })
            },
            KindModel::Sphere { radius } => {
                &&& kind.parameters() == seq![("Radius", radius)]
                &&& kind.with_parameter(k, value) matches KindModel::Sphere { radius: r } && r == (
                if k == 0 {
                    value
                } else {
                    radius
                })
            },
            KindModel::Translate { source, offset } => {
                &&& kind.parameters() == seq![
                    ("dX", offset.x),
                    ("dY", offset.y),
                    ("dZ", offset.z),
                ]
                &&& kind.with_parameter(k, value) matches KindModel::Translate {
                    source: s,
                    offset: now,
                } && s == source && now.x == (if k == 0 {
                    value
                } else {
                    offset.x
                }) && now.y == (if k == 1 {
                    value
                } else {
                    offset.y
                }) && now.z == (if k == 2 {
                    value
                } else {
                    offset.z
                })
            },
            KindModel::FilletAll { source, radius } => {
                &&& kind.parameters() == seq![("Radius", radius)]
                &&& kind.with_parameter(k, value) matches KindModel::FilletAll {
                    source: s,
                    radius: r,
                } && s == source && r == (if k == 0 {
                    value
                } else {
                    radius
                })
            },
            _ => kind.parameters().len() == 0 && kind.with_parameter(k, value) == kind,
        },
{
}

/// An arrow moves a feature by one place, the way it points: it changes places with
/// its neighbour and all others stay, unless a reference would then not point
/// backward, or there is no neighbour.
pub proof fn law_arrows_swap_neighbours(h: HistoryModel, id: FeatureId, i: int, k: int)
    requires
        h.well_formed(),
        0 <= i < h.features.len(),
        h.features[i].id == id,
        0 <= k < h.features.len(),
    ensures
        ({
            let now = nudged(h, id, true);
            &&& now.features.len() == h.features.len()
            &&& can_nudge(h, id, true) == (i < h.features.len() - 1)
            &&& !can_nudge(h, id, true) ==> now == h
            &&& now == h || {
                &&& now.features[i] == h.features[i + 1]
                &&& now.features[i + 1] == h.features[i]
                &&& k != i && k != i + 1 ==> now.features[k] == h.features[k]
            }
        }),
        ({
            let now = nudged(h, id, false);
            &&& now.features.len() == h.features.len()
            &&& can_nudge(h, id, false) == (i > 0)
            &&& !can_nudge(h, id, false) ==> now == h
            &&& now == h || {
                &&& now.features[i] == h.features[i - 1]
                &&& now.features[i - 1] == h.features[i]
                &&& k != i && k != i - 1 ==> now.features[k] == h.features[k]
            }
        }),
{
    crate::history::lemma_position(h.features, id, 0);
    let p = h.index(id)->Some_0;
    if p < i {
        assert(h.features[p].id != h.features[i].id);
    }
    assert(p == i);
}

/// What the panel's events do to the document: the bar moves to where it is set, a flag
/// is set, a feature goes, one number or one way of combining of the selected feature
/// changes. A click changes nothing in it.
pub proof fn law_what_panel_events_do(
    doc: DocumentModel,
    state: StateModel,
    event: PanelEvent,
    i: int,
)
    requires
        doc.history.well_formed(),
        0 <= i < doc.history.features.len(),
    ensures
        ({
            let now = edited(doc, state, event);
            let was = doc.history.features[i];
            &&& now.name == doc.name && now.units == doc.units
            &&& match event {
                PanelEvent::SetRollback(position) => {
                    &&& now.history == doc.history
                    &&& now.active_len() == (if position < doc.history.features.len() {
                        position as nat
                    } else {
                        doc.history.features.len()
                    })
                },
                PanelEvent::RollToTip => now.history == doc.history && now.active_len()
                    == doc.history.features.len(),
                PanelEvent::Click(_) => now == doc,
                PanelEvent::SetSuppressed(id, suppressed) => {
                    &&& now.bar == doc.bar
                    &&& now.history.features.len() == doc.history.features.len()
                    &&& now.history.features[i].kind == was.kind && now.history.features[i].id
                        == was.id
                    &&& now.history.features[i].suppressed == (if was.id == id {
                        suppressed
                    } else {
                        was.suppressed
                    })
                },
                PanelEvent::Delete(id) => was.id == id ==> now.history.features.len()
                    == doc.history.features.len() - 1 && forall|j: int|
                    0 <= j < now.history.features.len() ==> (
                    #[trigger] now.history.features[j]).id != id,
                PanelEvent::SetParameter(k, value) => {
                    &&& now.bar == doc.bar
                    &&& now.history.features.len() == doc.history.features.len()
                    &&& now.history.features[i].id == was.id
                    &&& state.selected == Some(was.id) && k < was.kind.parameters().len()
                        ==> now.history.features[i].kind.parameters()[k as int].1 == value
                    &&& state.selected != Some(was.id) ==> now.history.features[i] == was
                },
                PanelEvent::SetOperation(op) => {
                    &&& now.bar == doc.bar
                    &&& now.history.features.len() == doc.history.features.len()
                    &&& now.history.features[i].id == was.id
                    &&& state.selected != Some(was.id) ==> now.history.features[i] == was
                    &&& was.kind matches KindModel::Boolean { target, tool, .. }
                        ==> state.selected == Some(was.id) ==> now.history.features[i].kind
                        == (KindModel::Boolean { op, target, tool })
                },
                _ => now.bar == doc.bar,
            }
        }),
{
    let h = doc.history;
    match event {
        PanelEvent::SetSuppressed(id, suppressed) => {
            crate::edit_laws::law_an_edit_touches_one_feature(
                h,
                id,
                suppressed,
                h.features[i].kind,
                i,
            );
        },
        PanelEvent::Delete(id) => {
            crate::history::lemma_position(h.features, id, 0);
            if h.features[i].id == id {
                let at = h.index(id)->Some_0;
                let now = h.removed(at);
                assert forall|j: int| 0 <= j < now.features.len() implies (
                #[trigger] now.features[j]).id != id by {
                    crate::edit_laws::law_removing_takes_out_one_feature(h, at, j, 0);
                    if j < at {
                        assert(h.features[j].id != h.features[at].id);
                    } else {
                        assert(h.features[at].id != h.features[j + 1].id);
                    }
                }
            }
        },
        PanelEvent::SetParameter(k, value) => {
            if let Some(id) = state.selected {
                crate::history::lemma_position(h.features, id, 0);
                if let Some(kind) = selected_kind(doc, state) {
                    crate::edit_laws::law_an_edit_touches_one_feature(
                        h,
                        id,
                        true,
                        kind.with_parameter(k as int, value),
                        i,
                    );
                    if h.features[i].id == id {
                        let at = h.index(id)->Some_0;
                        if at < i {
                            assert(h.features[at].id != h.features[i].id);
                        }
                        assert(kind == h.features[i].kind);
                        if k < kind.parameters().len() {
                            law_parameters_read_back(kind, k as int, value);
                        }
                    }
                }
            }
        },
        PanelEvent::SetOperation(op) => {
            if let Some(id) = state.selected {
                crate::history::lemma_position(h.features, id, 0);
                if let Some(KindModel::Boolean { target, tool, .. }) = selected_kind(doc, state) {
                    crate::edit_laws::law_an_edit_touches_one_feature(
                        h,
                        id,
                        true,
                        KindModel::Boolean { op, target, tool },
                        i,
                    );
                }
                if h.features[i].id == id {
                    let at = h.index(id)->Some_0;
                    if at < i {
                        assert(h.features[at].id != h.features[i].id);
                    }
                }
            }
        },
        _ => {},
    }
}

/// Clicking a row selects its feature, clicking it again nothing, and a deleted feature
/// is not selected any more; nothing else changes what is selected.
pub proof fn law_rows_are_selected_by_clicks(state: StateModel, event: PanelEvent, id: FeatureId)
    ensures
        state.selected != Some(id) ==> reselected(state, PanelEvent::Click(id)) == Some(id),
        state.selected == Some(id) ==> reselected(state, PanelEvent::Click(id)) is None,
        reselected(state, PanelEvent::Delete(id)) != Some(id),
        state.selected != Some(id) ==> reselected(state, PanelEvent::Delete(id))
            == state.selected,
        !(event is Click) && !(event is Delete) ==> reselected(state, event) == state.selected,
{
}

/// A row shows its feature as it is: failed if there is a message for it, weak if it is
/// suppressed or behind the bar, and with its own name and kind.
pub proof fn law_rows_show_their_features(doc: DocumentModel, state: StateModel, i: int, j: int)
    requires
        0 <= i < doc.history.features.len(),
    ensures
        ({
            let r = row(doc, state, i);
            let f = doc.history.features[i];
            let failed = exists|e: int|
                0 <= e < state.errors.len() && (#[trigger] state.errors[e]).0 == f.id;
            &&& r.id == f.id && r.suppressed == f.suppressed
            &&& f.name.is_prefix_of(r.label)
            &&& r.selected == (state.selected == Some(f.id))
            &&& (r.style == RowStyle::Error) == failed
            &&& r.message is Some == failed
            &&& !failed ==> (r.style == RowStyle::Weak) == (f.suppressed || i >= doc.bar)
            &&& 0 <= j < state.errors.len() && state.errors[j].0 == f.id && (forall|e: int|
                0 <= e < j ==> (#[trigger] state.errors[e]).0 != f.id) ==> r.message == Some(
                state.errors[j].1,
            )
        }),
{
    let f = doc.history.features[i];
    lemma_message_for(state.errors, f.id, 0);
    lemma_first_message(state.errors, f.id, 0, j);
    let r = row(doc, state, i);
    assert(r.label.take(f.name.len() as int) =~= f.name);
}

proof fn lemma_message_for(errors: Seq<(FeatureId, Seq<char>)>, id: FeatureId, from: int)
    requires
        0 <= from,
    ensures
        message_for(errors, id, from) is Some == (exists|e: int|
            from <= e < errors.len() && (#[trigger] errors[e]).0 == id),
    decreases errors.len() - from,
{
    if from < errors.len() {
        lemma_message_for(errors, id, from + 1);
        if errors[from].0 == id {
            assert(errors[from].0 == id);
        }
    }
}

proof fn lemma_first_message(errors: Seq<(FeatureId, Seq<char>)>, id: FeatureId, from: int, j: int)
    requires
        0 <= from,
    ensures
        from <= j < errors.len() && errors[j].0 == id && (forall|e: int|
            from <= e < j ==> (#[trigger] errors[e]).0 != id) ==> message_for(errors, id, from)
            == Some(errors[j].1),
    decreases errors.len() - from,
{
    if from < j < errors.len() && (forall|e: int| from <= e < j ==> (#[trigger] errors[e]).0 != id) {
        assert(errors[from].0 != id);
        lemma_first_message(errors, id, from + 1, j);
    }
}

} // verus!
