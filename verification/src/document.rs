//! A named history with a unit and a rollback bar.
//!
//! The bar stands between two features. Only the features before it are active
//! and get replayed, so pulling it back shows the part at an earlier state. New
//! features are inserted at the bar.

use crate::features::{Feature, FeatureId, FeatureKind, FeatureModel, KindModel};
use crate::history::{History, HistoryModel};
use crate::units::LengthUnit;
use vstd::prelude::*;

verus! {

/// A part.
#[derive(Debug)]
pub struct Document {
    pub name: String,
    pub units: LengthUnit,
    pub history: History,
    /// Where the rollback bar was put. It may lie beyond the end if features were
    /// removed since; [`Document::rollback`] counts what is active.
    pub rollback: usize,
}

/// What a [`Document`] holds. `bar` is where the rollback bar was put; it may
/// lie beyond the end if features were removed since.
#[verifier::ext_equal]
pub struct DocumentModel {
    pub name: Seq<char>,
    pub units: LengthUnit,
    pub history: HistoryModel,
    pub bar: nat,
}

impl View for Document {
    type V = DocumentModel;

    open spec fn view(&self) -> DocumentModel {
        DocumentModel {
            name: self.name@,
            units: self.units,
            history: self.history@,
            bar: self.rollback as nat,
        }
    }
}

impl DocumentModel {
    /// How many leading features are active.
    pub open spec fn active_len(self) -> nat {
        if self.bar < self.history.features.len() {
            self.bar
        } else {
            self.history.features.len()
        }
    }

    /// The active features.
    pub open spec fn active(self) -> Seq<FeatureModel> {
        self.history.features.take(self.active_len() as int)
    }

    /// The document with a new feature inserted at the bar, which moves past it.
    pub open spec fn added(self, name: Seq<char>, kind: KindModel) -> DocumentModel {
        DocumentModel {
            history: self.history.inserted(self.active_len() as int, name, kind),
            bar: self.active_len() + 1,
            ..self
        }
    }

    /// The document with everything active.
    pub open spec fn at_tip(self) -> DocumentModel {
        DocumentModel { bar: self.history.features.len(), ..self }
    }

    /// The document with the bar at `position`, or at the tip if that lies
    /// beyond it.
    pub open spec fn rolled_to(self, position: nat) -> DocumentModel {
        DocumentModel {
            bar: if position < self.history.features.len() {
                position
            } else {
                self.history.features.len()
            },
            ..self
        }
    }

    /// A new, empty document.
    pub open spec fn empty(name: Seq<char>) -> DocumentModel {
        DocumentModel {
            name,
            units: LengthUnit::Millimeter,
            history: HistoryModel { features: seq![], next_id: 1 },
            bar: 0,
        }
    }
}

impl Default for Document {
    fn default() -> (r: Document)
        ensures
            r@ == DocumentModel::empty("Untitled"@),
    {
        Document::new("Untitled")
    }
}

impl Clone for Document {
    fn clone(&self) -> (r: Document)
        ensures
            r@ == self@,
    {
        Document {
            name: self.name.clone(),
            units: self.units,
            history: self.history.clone(),
            rollback: self.rollback,
        }
    }
}

impl Document {
    /// A new, empty document in millimetres.
    pub fn new(name: &str) -> (r: Document)
        ensures
            r@ == DocumentModel::empty(name@),
    {
        Document {
            name: String::from_str(name),
            units: LengthUnit::Millimeter,
            history: History::new(),
            rollback: 0,
        }
    }

    /// Insert a feature at the bar, returning its id. The bar moves past it, so
    /// the new feature is the last active one.
    pub fn add(&mut self, name: &str, kind: FeatureKind) -> (id: FeatureId)
        requires
            old(self)@.history.next_id < u64::MAX,
        ensures
            id == FeatureId(old(self)@.history.next_id),
            final(self)@ == old(self)@.added(name@, kind@),
    {
        let at = self.rollback();
        let id = self.history.insert(at, name, kind);
        let n: usize = self.history.len();
        assert(at < n);
        self.rollback = at + 1;
        id
    }

    /// Insert a feature named `"{base} {n}"`, with the next number for `base`.
    pub fn add_numbered(&mut self, base: &str, kind: FeatureKind) -> (id: FeatureId)
        requires
            old(self)@.history.next_id < u64::MAX,
            old(self)@.history.next_number(base@) <= u32::MAX,
        ensures
            id == FeatureId(old(self)@.history.next_id),
            final(self)@ == old(self)@.added(
                crate::text::numbered(base@, old(self)@.history.next_number(base@)),
                kind@,
            ),
    {
        let n = self.history.next_name_number(base);
        self.add(crate::text::numbered_name(base, n).as_str(), kind)
    }

    /// Copy everything that feeds `id` and the feature itself, and make the
    /// whole history active. Returns the copy of `id`.
    pub fn duplicate(&mut self, id: FeatureId) -> (r: Option<FeatureId>)
        requires
            old(self)@.history.well_formed(),
            old(self)@.history.index(id) is Some ==> old(self)@.history.next_id
                + crate::history::subtree(old(self)@.history.features, id).len() <= u64::MAX,
        ensures
            match old(self)@.history.index(id) {
                None => r is None && final(self)@ == old(self)@,
                Some(_) => {
                    &&& r == Some(
                        crate::history::renamed(
                            crate::history::subtree(old(self)@.history.features, id),
                            old(self)@.history.next_id,
                            id,
                        ),
                    )
                    &&& final(self)@ == (DocumentModel {
                        history: old(self)@.history.duplicated(id),
                        ..old(self)@
                    }).at_tip()
                },
            },
    {
        match self.history.clone_subtree(id) {
            None => None,
            Some(tip) => {
                self.rollback_to_tip();
                Some(tip)
            },
        }
    }

    /// The features before the bar.
    pub fn active_features(&self) -> (r: &[Feature])
        ensures
            crate::history::models(r@) == self@.active(),
    {
        let n = self.rollback();
        let all = self.history.features();
        let r = vstd::slice::slice_subrange(all, 0, n);
        assert(crate::history::models(r@) =~= self@.active());
        r
    }

    /// How many leading features are active.
    pub fn rollback(&self) -> (r: usize)
        ensures
            r == self@.active_len(),
    {
        let n: usize = self.history.len();
        if self.rollback < n {
            self.rollback
        } else {
            n
        }
    }

    /// Move the bar, no further than the tip.
    pub fn set_rollback(&mut self, position: usize)
        ensures
            final(self)@ == old(self)@.rolled_to(position as nat),
    {
        let n: usize = self.history.len();
        self.rollback = if position < n {
            position
        } else {
            n
        };
    }

    /// Make the whole history active.
    pub fn rollback_to_tip(&mut self)
        ensures
            final(self)@ == old(self)@.at_tip(),
    {
        self.rollback = self.history.len();
    }

    /// Whether every feature is active.
    pub fn is_at_tip(&self) -> (r: bool)
        ensures
            r == (self@.active_len() == self@.history.features.len()),
    {
        self.rollback >= self.history.len()
    }
}

} // verus!
