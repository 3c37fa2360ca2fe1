//! The ordered list of features.
//!
//! One rule makes replay sound: every reference points backward, to a feature
//! earlier in the list, so the whole history is evaluated in a single forward
//! pass. Moves and edits are checked against it.

use crate::features::{Feature, FeatureId, FeatureKind, FeatureModel, KindModel};
use vstd::prelude::*;

verus! {

/// Why a reference breaks the rule.
#[derive(Clone, Copy, PartialEq, Eq, Debug, Structural)]
pub enum DependencyError {
    /// The feature refers to one that is not in the history.
    UnknownInput { feature: FeatureId, input: FeatureId },
    /// The feature refers to itself or to one that comes later.
    ForwardReference { feature: FeatureId, input: FeatureId },
}

/// The text shown for a feature's id.
pub open spec fn id_text(id: FeatureId) -> Seq<char> {
    "FeatureId("@ + crate::text::decimal(id.0 as nat) + ")"@
}

pub(crate) fn push_id(text: &mut String, id: FeatureId)
    ensures
        final(text)@ == old(text)@ + id_text(id),
{
    text.append("FeatureId(");
    text.append(crate::text::decimal_text(id.0).as_str());
    text.append(")");
    assert(text@ =~= old(text)@ + id_text(id));
}

impl DependencyError {
    /// What the error says.
    pub open spec fn text(self) -> Seq<char> {
        match self {
            DependencyError::UnknownInput { feature, input } => "feature "@ + id_text(feature)
                + " references "@ + id_text(input) + ", which does not exist"@,
            DependencyError::ForwardReference { feature, input } => "feature "@ + id_text(feature)
                + " references "@ + id_text(input) + ", which comes later in history"@,
        }
    }

    /// The error as a sentence.
    pub fn message(&self) -> (r: String)
        ensures
            r@ == self.text(),
    {
        let (feature, input, end) = match self {
            DependencyError::UnknownInput { feature, input } => (
                *feature,
                *input,
                ", which does not exist",
            ),
            DependencyError::ForwardReference { feature, input } => (
                *feature,
                *input,
                ", which comes later in history",
            ),
        };
        let mut text = String::from_str("feature ");
        push_id(&mut text, feature);
        text.append(" references ");
        push_id(&mut text, input);
        text.append(end);
        text
    }
}

/// What a list of features holds.
pub open spec fn models(features: Seq<Feature>) -> Seq<FeatureModel> {
    Seq::new(features.len(), |i: int| features[i]@)
}

/// The first feature at or after `from` with the given id.
pub open spec fn position(features: Seq<FeatureModel>, id: FeatureId, from: int) -> Option<int>
    decreases features.len() - from,
{
    if from < 0 || from >= features.len() {
        None
    } else if features[from].id == id {
        Some(from)
    } else {
        position(features, id, from + 1)
    }
}

/// What is wrong with the reference to `input` made by the feature at `index`,
/// if anything.
pub open spec fn reference_error(features: Seq<FeatureModel>, index: int, input: FeatureId) -> Option<
    DependencyError,
> {
    match position(features, input, 0) {
        None => Some(DependencyError::UnknownInput { feature: features[index].id, input }),
        Some(j) => if j >= index {
            Some(DependencyError::ForwardReference { feature: features[index].id, input })
        } else {
            None
        },
    }
}

/// What is wrong with the first `count` references of the feature at `index`.
pub open spec fn feature_errors(features: Seq<FeatureModel>, index: int, count: nat) -> Seq<
    DependencyError,
>
    decreases count,
{
    if count == 0 {
        seq![]
    } else {
        let before = feature_errors(features, index, (count - 1) as nat);
        match reference_error(features, index, features[index].kind.inputs()[count - 1]) {
            Some(e) => before.push(e),
            None => before,
        }
    }
}

/// What is wrong with the references of the first `count` features, in order.
pub open spec fn dependency_errors(features: Seq<FeatureModel>, count: nat) -> Seq<DependencyError>
    decreases count,
{
    if count == 0 {
        seq![]
    } else {
        dependency_errors(features, (count - 1) as nat) + feature_errors(
            features,
            count - 1,
            features[count - 1].kind.inputs().len(),
        )
    }
}

/// The reference to `input` from position `index` points backward.
pub open spec fn backward(features: Seq<FeatureModel>, index: int, input: FeatureId) -> bool {
    position(features, input, 0) matches Some(j) && j < index
}

/// Every reference points backward.
pub open spec fn sound(features: Seq<FeatureModel>) -> bool {
    forall|i: int, k: int|
        #![trigger features[i].kind.inputs()[k]]
        0 <= i < features.len() && 0 <= k < features[i].kind.inputs().len() ==> backward(
            features,
            i,
            features[i].kind.inputs()[k],
        )
}

/// Whether `set` holds, with a feature, everything that feature consumes.
pub open spec fn closed_under_inputs(features: Seq<FeatureModel>, set: Set<FeatureId>) -> bool {
    forall|i: int, k: int|
        #![trigger features[i].kind.inputs()[k]]
        0 <= i < features.len() && 0 <= k < features[i].kind.inputs().len() && set.contains(
            features[i].id,
        ) ==> set.contains(features[i].kind.inputs()[k])
}

/// Whether `x` feeds `root`: it lies in every set that holds `root` and, with a
/// feature, everything that feature consumes.
pub open spec fn feeds(features: Seq<FeatureModel>, root: FeatureId, x: FeatureId) -> bool {
    forall|set: Set<FeatureId>|
        #![trigger closed_under_inputs(features, set)]
        closed_under_inputs(features, set) && set.contains(root) ==> set.contains(x)
}

/// The features that feed `root`, itself among them, in history order.
pub open spec fn subtree(features: Seq<FeatureModel>, root: FeatureId) -> Seq<FeatureModel> {
    features.filter(|f: FeatureModel| feeds(features, root, f.id))
}

/// The fresh id given to `id`: `first` and upward for the listed features, in
/// order; any other id stays as it is.
pub open spec fn renamed(originals: Seq<FeatureModel>, first: u64, id: FeatureId) -> FeatureId {
    match position(originals, id, 0) {
        Some(k) => FeatureId((first + k) as u64),
        None => id,
    }
}

/// The renaming as a function.
pub open spec fn renaming(originals: Seq<FeatureModel>, first: u64) -> spec_fn(
    FeatureId,
) -> FeatureId {
    |id: FeatureId| renamed(originals, first, id)
}

/// The copies of `originals` under fresh ids, referring to one another.
pub open spec fn copies(originals: Seq<FeatureModel>, first: u64) -> Seq<FeatureModel> {
    Seq::new(
        originals.len(),
        |k: int|
            FeatureModel {
                id: FeatureId((first + k) as u64),
                name: originals[k].name,
                suppressed: originals[k].suppressed,
                kind: originals[k].kind.rewired(renaming(originals, first)),
            },
    )
}

/// What a [`History`] holds.
#[verifier::ext_equal]
pub struct HistoryModel {
    pub features: Seq<FeatureModel>,
    pub next_id: u64,
}

impl HistoryModel {
    /// Ids are distinct, and every one was handed out before `next_id`.
    pub open spec fn well_formed(self) -> bool {
        &&& forall|i: int, j: int|
            #![trigger self.features[i], self.features[j]]
            0 <= i < j < self.features.len() ==> self.features[i].id != self.features[j].id
        &&& forall|i: int|
            0 <= i < self.features.len() ==> (#[trigger] self.features[i]).id.0 < self.next_id
    }

    /// Every reference is to an id that was handed out, whether the feature is still
    /// there or not.
    pub open spec fn references_given(self) -> bool {
        forall|i: int, k: int|
            #![trigger self.features[i].kind.inputs()[k]]
            0 <= i < self.features.len() && 0 <= k < self.features[i].kind.inputs().len()
                ==> self.features[i].kind.inputs()[k].0 < self.next_id
    }

    /// Where the feature with the given id stands.
    pub open spec fn index(self, id: FeatureId) -> Option<int> {
        position(self.features, id, 0)
    }

    /// The history with a new feature at `at`.
    pub open spec fn inserted(self, at: int, name: Seq<char>, kind: KindModel) -> HistoryModel {
        HistoryModel {
            features: self.features.insert(
                at,
                FeatureModel { id: FeatureId(self.next_id), name, suppressed: false, kind },
            ),
            next_id: (self.next_id + 1) as u64,
        }
    }

    /// The history without the feature at `at`, references to it rewired to its
    /// primary input if it has one.
    pub open spec fn removed(self, at: int) -> HistoryModel {
        let gone = self.features[at];
        let rest = self.features.remove(at);
        HistoryModel {
            features: match gone.kind.primary_input() {
                Some(p) => Seq::new(
                    rest.len(),
                    |i: int|
                        FeatureModel { kind: rest[i].kind.remapped(gone.id, p), ..rest[i] },
                ),
                None => rest,
            },
            next_id: self.next_id,
        }
    }

    /// The history with the feature at `from` moved to `to`, or to the end if
    /// `to` lies beyond it.
    pub open spec fn moved(self, from: int, to: int) -> HistoryModel {
        let rest = self.features.remove(from);
        let at = if to < rest.len() {
            to
        } else {
            rest.len() as int
        };
        HistoryModel { features: rest.insert(at, self.features[from]), next_id: self.next_id }
    }

    /// The history with a feature suppressed or restored.
    pub open spec fn with_suppressed(self, id: FeatureId, suppressed: bool) -> HistoryModel {
        match self.index(id) {
            Some(i) => HistoryModel {
                features: self.features.update(
                    i,
                    FeatureModel { suppressed, ..self.features[i] },
                ),
                ..self
            },
            None => self,
        }
    }

    /// The history with a feature moved to another place, or as it is if a
    /// reference would then not point backward.
    pub open spec fn reordered(self, id: FeatureId, to: int) -> HistoryModel {
        match self.index(id) {
            Some(from) => {
                let candidate = self.moved(from, to);
                if dependency_errors(candidate.features, candidate.features.len()).len() == 0 {
                    candidate
                } else {
                    self
                }
            },
            None => self,
        }
    }

    /// The history without a feature, healed.
    pub open spec fn without(self, id: FeatureId) -> HistoryModel {
        match self.index(id) {
            Some(i) => self.removed(i),
            None => self,
        }
    }

    /// The history with a feature's operation replaced.
    pub open spec fn with_kind(self, id: FeatureId, kind: KindModel) -> HistoryModel {
        match self.index(id) {
            Some(i) => HistoryModel {
                features: self.features.update(i, FeatureModel { kind, ..self.features[i] }),
                ..self
            },
            None => self,
        }
    }

    /// The operation of a feature.
    pub open spec fn kind_of(self, id: FeatureId) -> Option<KindModel> {
        match self.index(id) {
            Some(i) => Some(self.features[i].kind),
            None => None,
        }
    }

    /// The history with the subtree of `root` copied at its end.
    pub open spec fn duplicated(self, root: FeatureId) -> HistoryModel {
        let originals = subtree(self.features, root);
        HistoryModel {
            features: self.features + copies(originals, self.next_id),
            next_id: (self.next_id + originals.len()) as u64,
        }
    }

    /// The number for the next feature named after `base`: one more than the
    /// highest in use, or one.
    pub open spec fn next_number(self, base: Seq<char>) -> nat {
        match highest_number(self.features, base) {
            Some(m) => (m + 1) as nat,
            None => 1,
        }
    }
}

/// The highest number in use behind `base`.
pub open spec fn highest_number(features: Seq<FeatureModel>, base: Seq<char>) -> Option<u32>
    decreases features.len(),
{
    if features.len() == 0 {
        None
    } else {
        let before = highest_number(features.drop_last(), base);
        match (before, crate::text::number_in(features.last().name, base)) {
            (None, n) => n,
            (m, None) => m,
            (Some(m), Some(n)) => if m >= n {
                Some(m)
            } else {
                Some(n)
            },
        }
    }
}

/// The ordered features and the next id to hand out.
#[derive(Debug)]
pub struct History {
    features: Vec<Feature>,
    next_id: u64,
}

impl View for History {
    type V = HistoryModel;

    closed spec fn view(&self) -> HistoryModel {
        HistoryModel { features: models(self.features@), next_id: self.next_id }
    }
}

pub proof fn lemma_position(features: Seq<FeatureModel>, id: FeatureId, from: int)
    requires
        0 <= from,
    ensures
        match position(features, id, from) {
            Some(i) => {
                &&& from <= i < features.len()
                &&& features[i].id == id
                &&& forall|j: int| from <= j < i ==> (#[trigger] features[j]).id != id
            },
            None => forall|j: int| from <= j < features.len() ==> (#[trigger] features[j]).id != id,
        },
    decreases features.len() - from,
{
    if from < features.len() && features[from].id != id {
        lemma_position(features, id, from + 1);
    }
}

impl Default for History {
    /// An empty history whose first feature gets the id `0`.
    fn default() -> (r: History)
        ensures
            r@ == (HistoryModel { features: seq![], next_id: 0 }),
    {
        let r = History { features: Vec::new(), next_id: 0 };
        assert(r@.features =~= seq![]);
        r
    }
}

impl Clone for History {
    fn clone(&self) -> (r: History)
        ensures
            r@ == self@,
    {
        let r = History { features: cloned_features(&self.features), next_id: self.next_id };
        r
    }
}

fn cloned_features(features: &Vec<Feature>) -> (r: Vec<Feature>)
    ensures
        models(r@) == models(features@),
{
    let mut out: Vec<Feature> = Vec::new();
    let mut i: usize = 0;
    while i < features.len()
        invariant
            i <= features@.len(),
            out@.len() == i,
            forall|j: int| 0 <= j < i ==> (#[trigger] out@[j])@ == features@[j]@,
        decreases features@.len() - i,
    {
        out.push(features[i].clone());
        i += 1;
    }
    assert(models(out@) =~= models(features@));
    out
}

/// Where the feature with the given id stands.
fn find(features: &Vec<Feature>, id: FeatureId) -> (r: Option<usize>)
    ensures
        match r {
            Some(i) => position(models(features@), id, 0) == Some(i as int),
            None => position(models(features@), id, 0) is None,
        },
{
    let mut i: usize = 0;
    while i < features.len()
        invariant
            i <= features@.len(),
            position(models(features@), id, 0) == position(models(features@), id, i as int),
        decreases features@.len() - i,
    {
        if features[i].id == id {
            return Some(i);
        }
        i += 1;
    }
    None
}

/// Everything wrong with the references, in order.
fn check_references(features: &Vec<Feature>) -> (r: Vec<DependencyError>)
    ensures
        r@ == dependency_errors(models(features@), features@.len()),
{
    let mut errors: Vec<DependencyError> = Vec::new();
    let mut index: usize = 0;
    while index < features.len()
        invariant
            index <= features@.len(),
            errors@ == dependency_errors(models(features@), index as nat),
        decreases features@.len() - index,
    {
        let feature = &features[index];
        let inputs = feature.kind.inputs();
        let ghost all = models(features@);
        let ghost before = errors@;
        assert(all[index as int] == feature@);
        let mut k: usize = 0;
        while k < inputs.len()
            invariant
                index < features@.len(),
                all == models(features@),
                all[index as int] == feature@,
                inputs@ == all[index as int].kind.inputs(),
                k <= inputs@.len(),
                errors@ == before + feature_errors(all, index as int, k as nat),
            decreases inputs@.len() - k,
        {
            let input = inputs[k];
            match find(features, input) {
                None => errors.push(
                    DependencyError::UnknownInput { feature: feature.id, input },
                ),
                Some(at) => {
                    if at >= index {
                        errors.push(
                            DependencyError::ForwardReference { feature: feature.id, input },
                        );
                    }
                },
            }
            k += 1;
            assert(errors@ =~= before + feature_errors(all, index as int, k as nat));
        }
        index += 1;
    }
    errors
}

impl History {
    /// An empty history whose first feature gets the id `1`.
    pub fn new() -> (r: History)
        ensures
            r@ == (HistoryModel { features: seq![], next_id: 1 }),
    {
        let r = History { features: Vec::new(), next_id: 1 };
        assert(r@.features =~= seq![]);
        r
    }

    /// A history as read back from a file: its features and the next id.
    pub fn restored(features: Vec<Feature>, next_id: u64) -> (r: History)
        ensures
            r@ == (HistoryModel { features: models(features@), next_id }),
    {
        History { features, next_id }
    }

    /// The id the next feature will get.
    pub fn next_id(&self) -> (r: u64)
        ensures
            r == self@.next_id,
    {
        self.next_id
    }

    /// Append a feature, returning its fresh id.
    pub fn add(&mut self, name: &str, kind: FeatureKind) -> (id: FeatureId)
        requires
            old(self)@.next_id < u64::MAX,
        ensures
            id == FeatureId(old(self)@.next_id),
            final(self)@ == old(self)@.inserted(old(self)@.features.len() as int, name@, kind@),
    {
        let at = self.features.len();
        self.insert(at, name, kind)
    }

    /// Insert a feature at position `at`, returning its fresh id.
    pub fn insert(&mut self, at: usize, name: &str, kind: FeatureKind) -> (id: FeatureId)
        requires
            at <= old(self)@.features.len(),
            old(self)@.next_id < u64::MAX,
        ensures
            id == FeatureId(old(self)@.next_id),
            final(self)@ == old(self)@.inserted(at as int, name@, kind@),
    {
        let id = FeatureId(self.next_id);
        self.next_id = self.next_id + 1;
        let feature = Feature { id, name: String::from_str(name), suppressed: false, kind };
        self.features.insert(at, feature);
        assert(self@.features =~= old(self)@.inserted(at as int, name@, kind@).features);
        id
    }

    /// The features, in order.
    pub fn features(&self) -> (r: &[Feature])
        ensures
            models(r@) == self@.features,
    {
        self.features.as_slice()
    }

    /// All features, for a pass that edits them in place.
    pub fn features_mut(&mut self) -> (r: &mut [Feature])
        ensures
            models(r@) == old(self)@.features,
            final(self)@ == (HistoryModel {
                features: models(final(r)@),
                next_id: old(self)@.next_id,
            }),
    {
        self.features.as_mut_slice()
    }

    /// How many features there are.
    pub fn len(&self) -> (r: usize)
        ensures
            r == self@.features.len(),
    {
        self.features.len()
    }

    /// Whether there are no features.
    pub fn is_empty(&self) -> (r: bool)
        ensures
            r == (self@.features.len() == 0),
    {
        self.features.len() == 0
    }

    /// Where the feature with the given id stands.
    pub fn index_of(&self, id: FeatureId) -> (r: Option<usize>)
        ensures
            match r {
                Some(i) => self@.index(id) == Some(i as int),
                None => self@.index(id) is None,
            },
    {
        find(&self.features, id)
    }

    /// The feature with the given id.
    pub fn get(&self, id: FeatureId) -> (r: Option<&Feature>)
        ensures
            match r {
                Some(f) => self@.index(id) matches Some(i) && f@ == self@.features[i],
                None => self@.index(id) is None,
            },
    {
        match find(&self.features, id) {
            Some(i) => {
                proof {
                    lemma_position(self@.features, id, 0);
                }
                Some(&self.features[i])
            },
            None => None,
        }
    }

    /// The feature with the given id, for editing its parameters.
    pub fn get_mut(&mut self, id: FeatureId) -> (r: Option<&mut Feature>)
        ensures
            match r {
                Some(f) => old(self)@.index(id) matches Some(i) && {
                    &&& f@ == old(self)@.features[i]
                    &&& final(self)@ == (HistoryModel {
                        features: old(self)@.features.update(i, final(f)@),
                        next_id: old(self)@.next_id,
                    })
                },
                None => old(self)@.index(id) is None && final(self)@ == old(self)@,
            },
    {
        match find(&self.features, id) {
            Some(i) => {
                proof {
                    lemma_position(self@.features, id, 0);
                }
                Some(&mut self.features[i])
            },
            None => None,
        }
    }
}

impl History {
    /// Remove a feature. References to it are rewired to its primary input, so
    /// deleting a fillet reconnects its dependents to the body it was filleting.
    /// Dependents of a feature without inputs are left dangling.
    pub fn remove(&mut self, id: FeatureId) -> (r: Option<Feature>)
        ensures
            match old(self)@.index(id) {
                Some(i) => r matches Some(f) && f@ == old(self)@.features[i] && final(self)@ == old(
                    self,
                )@.removed(i),
                None => r is None && final(self)@ == old(self)@,
            },
    {
        let at = match find(&self.features, id) {
            None => return None,
            Some(at) => at,
        };
        proof {
            lemma_position(self@.features, id, 0);
        }
        let ghost rest = self@.features.remove(at as int);
        let gone = self.features.remove(at);
        assert(models(self.features@) =~= rest);
        match gone.kind.primary_input() {
            None => {},
            Some(replacement) => {
                let n: usize = self.features.len();
                let mut i: usize = 0;
                while i < n
                    invariant
                        i <= n == rest.len() == self.features@.len(),
                        self.next_id == old(self)@.next_id,
                        forall|j: int|
                            0 <= j < n ==> (#[trigger] self.features@[j])@ == (if j < i {
                                FeatureModel {
                                    kind: rest[j].kind.remapped(id, replacement),
                                    ..rest[j]
                                }
                            } else {
                                rest[j]
                            }),
                    decreases n - i,
                {
                    let feature = &mut self.features[i];
                    feature.kind.remap_input(id, replacement);
                    i += 1;
                }
            },
        }
        assert(self@.features =~= old(self)@.removed(at as int).features);
        Some(gone)
    }

    /// Suppress or restore a feature.
    pub fn set_suppressed(&mut self, id: FeatureId, suppressed: bool)
        ensures
            final(self)@ == old(self)@.with_suppressed(id, suppressed),
    {
        match self.get_mut(id) {
            Some(f) => {
                f.suppressed = suppressed;
            },
            None => {},
        }
    }

    /// Move a feature to a new index. Refused, changing nothing, if a reference
    /// would then not point backward; the errors are those of the refused order.
    /// Moving an unknown feature does nothing.
    pub fn reorder(&mut self, id: FeatureId, new_index: usize) -> (r: Result<
        (),
        Vec<DependencyError>,
    >)
        ensures
            match old(self)@.index(id) {
                None => r is Ok && final(self)@ == old(self)@,
                Some(from) => {
                    let candidate = old(self)@.moved(from, new_index as int);
                    let errors = dependency_errors(
                        candidate.features,
                        candidate.features.len(),
                    );
                    match r {
                        Ok(_) => errors.len() == 0 && final(self)@ == candidate,
                        Err(e) => errors.len() > 0 && e@ == errors && final(self)@ == old(self)@,
                    }
                },
            },
    {
        let from = match find(&self.features, id) {
            None => return Ok(()),
            Some(from) => from,
        };
        proof {
            lemma_position(self@.features, id, 0);
        }
        let mut candidate = cloned_features(&self.features);
        let ghost all = models(candidate@);
        let feature = candidate.remove(from);
        assert(models(candidate@) =~= all.remove(from as int));
        let to: usize = if new_index < candidate.len() {
            new_index
        } else {
            candidate.len()
        };
        let ghost rest = candidate@;
        candidate.insert(to, feature);
        assert(models(candidate@) =~= models(rest).insert(to as int, feature@));
        let errors = check_references(&candidate);
        if errors.is_empty() {
            self.features = candidate;
            Ok(())
        } else {
            Err(errors)
        }
    }

    /// Check that every reference is known and points backward.
    pub fn validate(&self) -> (r: Result<(), Vec<DependencyError>>)
        ensures
            ({
                let errors = dependency_errors(self@.features, self@.features.len());
                match r {
                    Ok(_) => errors.len() == 0,
                    Err(e) => errors.len() > 0 && e@ == errors,
                }
            }),
    {
        let errors = check_references(&self.features);
        if errors.is_empty() {
            Ok(())
        } else {
            Err(errors)
        }
    }

    /// The highest number in use behind `base`.
    fn highest(&self, base: &str) -> (r: Option<u32>)
        ensures
            r == highest_number(self@.features, base@),
    {
        let mut best: Option<u32> = None;
        let mut i: usize = 0;
        while i < self.features.len()
            invariant
                i <= self.features@.len(),
                best == highest_number(models(self.features@).take(i as int), base@),
            decreases self.features@.len() - i,
        {
            let number = crate::text::number_after(self.features[i].name.as_str(), base);
            proof {
                let all = models(self.features@);
                assert(all.take(i + 1).drop_last() =~= all.take(i as int));
                assert(all.take(i + 1).last() == self.features@[i as int]@);
            }
            best = match (best, number) {
                (None, n) => n,
                (Some(m), None) => Some(m),
                (Some(m), Some(n)) => if m >= n {
                    Some(m)
                } else {
                    Some(n)
                },
            };
            i += 1;
        }
        proof {
            assert(models(self.features@).take(i as int) =~= models(self.features@));
        }
        best
    }

    /// The number for the next feature named `"{base} {n}"`: one more than the
    /// highest in use, so numbers climb and a gap left by a deletion is never
    /// filled. The first is one.
    pub fn next_name_number(&self, base: &str) -> (r: u32)
        requires
            self@.next_number(base@) <= u32::MAX,
        ensures
            r == self@.next_number(base@),
    {
        match self.highest(base) {
            Some(m) => m + 1,
            None => 1,
        }
    }

    /// Whether the numbers behind `base` have not run out, so that
    /// [`History::next_name_number`] can be asked.
    pub fn can_number(&self, base: &str) -> (r: bool)
        ensures
            r == (self@.next_number(base@) <= u32::MAX),
    {
        match self.highest(base) {
            Some(m) => m < u32::MAX,
            None => true,
        }
    }

    /// For each feature, whether it feeds the one at `root`.
    fn marks(&self, root: usize) -> (r: Vec<bool>)
        requires
            self@.well_formed(),
            root < self@.features.len(),
        ensures
            r@.len() == self@.features.len(),
            forall|i: int|
                0 <= i < r@.len() ==> #[trigger] r@[i] == feeds(
                    self@.features,
                    self@.features[root as int].id,
                    self@.features[i].id,
                ),
    {
        let n: usize = self.features.len();
        let ghost all = self@.features;
        let ghost top = all[root as int].id;
        let mut marks: Vec<bool> = Vec::new();
        let mut m: usize = 0;
        while m < n
            invariant
                m <= n,
                root < n,
                marks@.len() == m,
                forall|i: int| 0 <= i < m ==> #[trigger] marks@[i] == (i == root),
            decreases n - m,
        {
            marks.push(m == root);
            m += 1;
        }
        let mut stack: Vec<usize> = Vec::new();
        stack.push(root);
        let ghost mut seen: Set<int> = set![root as int];
        proof {
            assert forall|i: int| 0 <= i < n && #[trigger] marks@[i] implies feeds(
                all,
                top,
                all[i].id,
            ) by {}
            assert(stack@.contains(root as int as usize)) by {
                assert(stack@[0] == root);
            }
        }
        while stack.len() > 0
            invariant
                n == self.features@.len(),
                all == self@.features,
                self@.well_formed(),
                marks@.len() == n,
                root < n,
                top == all[root as int].id,
                marks@[root as int],
                seen.finite(),
                seen.subset_of(vstd::set_lib::set_int_range(0, n as int)),
                forall|i: int| 0 <= i < n ==> #[trigger] marks@[i] == seen.contains(i),
                forall|i: int| 0 <= i < n && #[trigger] marks@[i] ==> feeds(all, top, all[i].id),
                forall|s: int| 0 <= s < stack@.len() ==> (#[trigger] stack@[s]) < n && marks@[stack@[s] as int],
                forall|i: int|
                    0 <= i < n && #[trigger] marks@[i] && !stack@.contains(i as usize)
                        ==> inputs_marked(all, marks@, i, all[i].kind.inputs().len() as int),
            decreases n - seen.len(), stack@.len(),
        {
            proof {
                vstd::set_lib::lemma_int_range(0, n as int);
                vstd::set_lib::lemma_len_subset(seen, vstd::set_lib::set_int_range(0, n as int));
            }
            let ghost waiting = stack@;
            let cur: usize = stack.pop().unwrap();
            let ghost before = seen;
            let ghost below = stack@.len();
            proof {
                assert(waiting.last() == cur);
                assert forall|x: usize| waiting.contains(x) && x != cur implies stack@.contains(
                    x,
                ) by {
                    let s = waiting.index_of(x);
                    assert(stack@[s] == x);
                }
                assert forall|x: usize| stack@.contains(x) implies waiting.contains(x) by {
                    let s = stack@.index_of(x);
                    assert(waiting[s] == x);
                }
                assert(forall|s: int| 0 <= s < stack@.len() ==> stack@[s] == waiting[s]);
            }
            let inputs = self.features[cur].kind.inputs();
            assert(all[cur as int] == self.features@[cur as int]@);
            let mut k: usize = 0;
            while k < inputs.len()
                invariant
                    n == self.features@.len(),
                    all == self@.features,
                    self@.well_formed(),
                    marks@.len() == n,
                    root < n,
                    cur < n,
                    marks@[cur as int],
                    marks@[root as int],
                    inputs@ == all[cur as int].kind.inputs(),
                    k <= inputs@.len(),
                    seen.finite(),
                    before.finite(),
                    before.subset_of(seen),
                    seen.subset_of(vstd::set_lib::set_int_range(0, n as int)),
                    seen.len() >= before.len(),
                    seen.len() == before.len() ==> stack@.len() == below,
                    forall|i: int| 0 <= i < n ==> #[trigger] marks@[i] == seen.contains(i),
                    forall|i: int|
                        0 <= i < n && #[trigger] marks@[i] ==> feeds(all, top, all[i].id),
                    forall|s: int|
                        0 <= s < stack@.len() ==> (#[trigger] stack@[s]) < n
                            && marks@[stack@[s] as int],
                    inputs_marked(all, marks@, cur as int, k as int),
                    forall|i: int|
                        0 <= i < n && #[trigger] marks@[i] && i != cur && !stack@.contains(
                            i as usize,
                        ) ==> inputs_marked(all, marks@, i, all[i].kind.inputs().len() as int),
                decreases inputs@.len() - k,
            {
                let input = inputs[k];
                match find(&self.features, input) {
                    None => {},
                    Some(j) => {
                        proof {
                            lemma_position(all, input, 0);
                            lemma_feeds_step(all, top, cur as int, k as int);
                        }
                        if !marks[j] {
                            let ghost old_marks = marks@;
                            let ghost old_stack = stack@;
                            marks.set(j, true);
                            stack.push(j);
                            proof {
                                seen = seen.insert(j as int);
                                assert(stack@[old_stack.len() as int] == j);
                                assert forall|x: usize| old_stack.contains(
                                    x,
                                ) implies stack@.contains(x) by {
                                    let q = old_stack.index_of(x);
                                    assert(stack@[q] == x);
                                }
                                assert forall|i: int|
                                    0 <= i < n && #[trigger] marks@[i] && i != cur
                                        && !stack@.contains(i as usize) implies inputs_marked(
                                    all,
                                    marks@,
                                    i,
                                    all[i].kind.inputs().len() as int,
                                ) by {
                                    assert(i != j);
                                    assert(old_marks[i]);
                                }
                            }
                        }
                    },
                }
                k += 1;
            }
            proof {
                vstd::set_lib::lemma_len_subset(seen, vstd::set_lib::set_int_range(0, n as int));
            }
        }
        proof {
            // The marked ids, with every unknown id, are closed under inputs.
            let kept = Set::new(
                |x: FeatureId|
                    match position(all, x, 0) {
                        Some(i) => marks@[i],
                        None => true,
                    },
            );
            assert forall|i: int| 0 <= i < n implies position(all, (#[trigger] all[i]).id, 0)
                == Some(i) by {
                lemma_position(all, all[i].id, 0);
            }
            assert(closed_under_inputs(all, kept)) by {
                assert forall|i: int, k: int|
                    #![trigger all[i].kind.inputs()[k]]
                    0 <= i < all.len() && 0 <= k < all[i].kind.inputs().len() && kept.contains(
                        all[i].id,
                    ) implies kept.contains(all[i].kind.inputs()[k]) by {
                    assert(position(all, all[i].id, 0) == Some(i));
                    assert(marks@[i]);
                    assert(inputs_marked(all, marks@, i, all[i].kind.inputs().len() as int));
                }
            }
            assert forall|i: int| 0 <= i < n implies #[trigger] marks@[i] == feeds(
                all,
                top,
                all[i].id,
            ) by {
                assert(position(all, all[i].id, 0) == Some(i));
                assert(position(all, all[root as int].id, 0) == Some(root as int));
                assert(kept.contains(top));
            }
        }
        marks
    }
}

/// The first `count` inputs of the feature at `i` are marked, where they exist.
spec fn inputs_marked(all: Seq<FeatureModel>, marks: Seq<bool>, i: int, count: int) -> bool {
    forall|k: int|
        0 <= k < count ==> match position(all, #[trigger] all[i].kind.inputs()[k], 0) {
            Some(j) => 0 <= j < marks.len() && marks[j],
            None => true,
        }
}

/// What a feature consumes feeds whatever the feature feeds.
pub proof fn lemma_feeds_step(all: Seq<FeatureModel>, root: FeatureId, i: int, k: int)
    requires
        0 <= i < all.len(),
        0 <= k < all[i].kind.inputs().len(),
        feeds(all, root, all[i].id),
    ensures
        feeds(all, root, all[i].kind.inputs()[k]),
{
    assert forall|set: Set<FeatureId>| #[trigger]
        closed_under_inputs(all, set) && set.contains(root) implies set.contains(
        all[i].kind.inputs()[k],
    ) by {
        assert(set.contains(all[i].id));
    }
}

/// The renaming carried out for the first `count` originals only.
spec fn renaming_part(originals: Seq<FeatureModel>, first: u64, count: int) -> spec_fn(
    FeatureId,
) -> FeatureId {
    |id: FeatureId|
        match position(originals, id, 0) {
            Some(k) => if k < count {
                FeatureId((first + k) as u64)
            } else {
                id
            },
            None => id,
        }
}

impl History {
    /// The features that feed the one at `root`, copied out in order, and where
    /// the root stands among them.
    fn collect_subtree(&self, root: usize) -> (r: (Vec<Feature>, usize))
        requires
            self@.well_formed(),
            root < self@.features.len(),
        ensures
            models(r.0@) == subtree(self@.features, self@.features[root as int].id),
            position(models(r.0@), self@.features[root as int].id, 0) == Some(r.1 as int),
            (HistoryModel { features: models(r.0@), next_id: self@.next_id }).well_formed(),
    {
        let marks = self.marks(root);
        let ghost all = self@.features;
        let ghost top = all[root as int].id;
        let ghost pick = |f: FeatureModel| feeds(all, top, f.id);
        let mut originals: Vec<Feature> = Vec::new();
        let ghost mut from: Seq<int> = seq![];
        let mut tip: usize = 0;
        let mut i: usize = 0;
        proof {
            reveal(Seq::filter);
            assert(all.take(0).filter(pick) =~= seq![]);
        }
        while i < self.features.len()
            invariant
                all == self@.features,
                self@.well_formed(),
                root < all.len(),
                marks@.len() == all.len(),
                i <= all.len(),
                all.len() == self.features@.len(),
                forall|j: int|
                    0 <= j < all.len() ==> #[trigger] marks@[j] == feeds(all, top, all[j].id),
                pick == (|f: FeatureModel| feeds(all, top, f.id)),
                models(originals@) == all.take(i as int).filter(pick),
                from.len() == originals@.len(),
                forall|k: int|
                    0 <= k < from.len() ==> 0 <= #[trigger] from[k] < i && originals@[k]@
                        == all[from[k]],
                forall|k: int, l: int| 0 <= k < l < from.len() ==> from[k] < from[l],
                root < i && marks@[root as int] ==> tip < from.len() && from[tip as int] == root,
            decreases all.len() - i,
        {
            proof {
                reveal(Seq::filter);
                assert(all.take(i + 1).drop_last() =~= all.take(i as int));
                assert(all.take(i + 1).last() == all[i as int]);
            }
            if marks[i] {
                if i == root {
                    tip = originals.len();
                }
                let ghost before = originals@;
                originals.push(self.features[i].clone());
                proof {
                    from = from.push(i as int);
                    assert(models(originals@) =~= models(before).push(all[i as int]));
                }
            }
            i += 1;
        }
        proof {
            assert(all.take(i as int) =~= all);
            let list = models(originals@);
            assert(feeds(all, top, top));
            assert(marks@[root as int]);
            assert(list[tip as int].id == top);
            assert forall|k: int, l: int| 0 <= k < l < list.len() implies list[k].id
                != list[l].id by {
                assert(from[k] < from[l]);
                assert(all[from[k]].id != all[from[l]].id);
            }
            assert forall|k: int| 0 <= k < list.len() implies (#[trigger] list[k]).id.0
                < self@.next_id by {
                assert(list[k] == all[from[k]]);
            }
            lemma_position(list, top, 0);
        }
        (originals, tip)
    }

    /// Copy everything that feeds `id`, and the feature itself, to the end of
    /// the history under fresh ids. The copies refer only to one another, so
    /// they are an independent duplicate. Returns the copy of `id`.
    pub fn clone_subtree(&mut self, id: FeatureId) -> (r: Option<FeatureId>)
        requires
            old(self)@.well_formed(),
            old(self)@.index(id) is Some ==> old(self)@.next_id + subtree(
                old(self)@.features,
                id,
            ).len() <= u64::MAX,
        ensures
            match old(self)@.index(id) {
                None => r is None && final(self)@ == old(self)@,
                Some(_) => {
                    &&& r == Some(
                        renamed(subtree(old(self)@.features, id), old(self)@.next_id, id),
                    )
                    &&& final(self)@ == old(self)@.duplicated(id)
                },
            },
    {
        let root = match find(&self.features, id) {
            None => return None,
            Some(root) => root,
        };
        proof {
            lemma_position(self@.features, id, 0);
        }
        let (originals, tip) = self.collect_subtree(root);
        let ghost all = self@.features;
        let ghost list = models(originals@);
        let first = self.next_id;
        let n: usize = originals.len();
        let mut k: usize = 0;
        while k < n
            invariant
                k <= n == originals@.len() == list.len(),
                list == models(originals@),
                (HistoryModel { features: list, next_id: first }).well_formed(),
                first + n <= u64::MAX,
                self.next_id == first,
                models(self.features@) == all + copies(list, first).take(k as int),
            decreases n - k,
        {
            let mut kind = originals[k].kind.clone();
            let ghost source = list[k as int].kind;
            let mut j: usize = 0;
            proof {
                assert forall|x: FeatureId| #[trigger] renaming_part(list, first, 0)(x) == x by {
                    lemma_position(list, x, 0);
                }
                crate::features::lemma_rewired_same(source, renaming_part(list, first, 0));
            }
            while j < n
                invariant
                    j <= n == originals@.len() == list.len(),
                    list == models(originals@),
                    (HistoryModel { features: list, next_id: first }).well_formed(),
                    first + n <= u64::MAX,
                    kind@ == source.rewired(renaming_part(list, first, j as int)),
                decreases n - j,
            {
                let (old_id, new_id) = (originals[j].id, FeatureId(first + j as u64));
                proof {
                    let f = renaming_part(list, first, j as int);
                    let g = crate::features::swapping(old_id, new_id);
                    let h = renaming_part(list, first, j + 1);
                    assert(list[j as int].id == old_id);
                    assert forall|x: FeatureId| #[trigger] h(x) == g(f(x)) by {
                        lemma_position(list, x, 0);
                    }
                    crate::features::lemma_rewired_twice(source, f, g, h);
                }
                kind.remap_input(old_id, new_id);
                j += 1;
            }
            proof {
                let f = renaming_part(list, first, n as int);
                assert forall|x: FeatureId| #[trigger] f(x) == renaming(list, first)(x) by {
                    lemma_position(list, x, 0);
                }
                assert(f =~= renaming(list, first));
            }
            let ghost before = self.features@;
            let copy = Feature {
                id: FeatureId(first + k as u64),
                name: originals[k].name.clone(),
                suppressed: originals[k].suppressed,
                kind,
            };
            self.features.push(copy);
            proof {
                assert(models(self.features@) =~= models(before).push(copy@));
                assert(copy@ =~= copies(list, first)[k as int]);
                assert(copies(list, first).take(k + 1) =~= copies(list, first).take(
                    k as int,
                ).push(copy@));
            }
            k += 1;
        }
        proof {
            assert(copies(list, first).take(n as int) =~= copies(list, first));
            lemma_position(list, id, 0);
        }
        self.next_id = first + n as u64;
        Some(FeatureId(first + tip as u64))
    }
}

} // verus!
