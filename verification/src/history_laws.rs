//! What holds of every history.

use crate::document::DocumentModel;
use crate::features::{FeatureId, FeatureModel, KindModel};
use crate::history::{DependencyError, HistoryModel};
use vstd::prelude::*;

verus! {

/// A history passes validation exactly when every reference points backward.
pub proof fn law_validation_is_soundness(features: Seq<FeatureModel>)
    ensures
        (crate::history::dependency_errors(features, features.len()).len() == 0)
            == crate::history::sound(features),
{
    lemma_errors_upto(features, features.len());
    let upto = features.len();
    if crate::history::dependency_errors(features, upto).len() == 0 {
        assert forall|i: int, k: int|
            #![trigger features[i].kind.inputs()[k]]
            0 <= i < features.len() && 0 <= k < features[i].kind.inputs().len() implies crate::history::backward(
            features,
            i,
            features[i].kind.inputs()[k],
        ) by {
            assert(backward_upto(features, i, features[i].kind.inputs().len()));
        }
    } else {
        if crate::history::sound(features) {
            assert forall|i: int| 0 <= i < upto implies backward_upto(
                features,
                i,
                #[trigger] features[i].kind.inputs().len(),
            ) by {}
        }
    }
}

/// The first `count` references of the feature at `i` point backward.
spec fn backward_upto(features: Seq<FeatureModel>, i: int, count: nat) -> bool {
    forall|k: int|
        0 <= k < count ==> crate::history::backward(
            features,
            i,
            #[trigger] features[i].kind.inputs()[k],
        )
}

proof fn lemma_feature_errors(features: Seq<FeatureModel>, i: int, count: nat)
    requires
        count <= features[i].kind.inputs().len(),
    ensures
        (crate::history::feature_errors(features, i, count).len() == 0) == backward_upto(
            features,
            i,
            count,
        ),
    decreases count,
{
    if count > 0 {
        lemma_feature_errors(features, i, (count - 1) as nat);
        let input = features[i].kind.inputs()[count - 1];
        crate::history::lemma_position(features, input, 0);
        if backward_upto(features, i, count) {
            assert(crate::history::backward(features, i, input));
            assert(backward_upto(features, i, (count - 1) as nat));
        } else if backward_upto(features, i, (count - 1) as nat) {
            assert(!crate::history::backward(features, i, input));
        }
    }
}

proof fn lemma_errors_upto(features: Seq<FeatureModel>, count: nat)
    requires
        count <= features.len(),
    ensures
        (crate::history::dependency_errors(features, count).len() == 0) == (forall|i: int|
            0 <= i < count ==> backward_upto(
                features,
                i,
                #[trigger] features[i].kind.inputs().len(),
            )),
    decreases count,
{
    if count > 0 {
        lemma_errors_upto(features, (count - 1) as nat);
        let last = count - 1;
        lemma_feature_errors(features, last, features[last].kind.inputs().len());
        if forall|i: int|
            0 <= i < count - 1 ==> backward_upto(
                features,
                i,
                #[trigger] features[i].kind.inputs().len(),
            ) {
            if backward_upto(features, last, features[last].kind.inputs().len()) {
                assert forall|i: int| 0 <= i < count implies backward_upto(
                    features,
                    i,
                    #[trigger] features[i].kind.inputs().len(),
                ) by {}
            }
        }
    }
}

/// A new feature gets an id no feature has, and ids stay distinct and below the
/// next one to be handed out.
pub proof fn law_new_ids_are_fresh(h: HistoryModel, at: int, name: Seq<char>, kind: KindModel)
    requires
        h.well_formed(),
        0 <= at <= h.features.len(),
        h.next_id < u64::MAX,
    ensures
        h.index(FeatureId(h.next_id)) is None,
        h.inserted(at, name, kind).well_formed(),
        h.inserted(at, name, kind).index(FeatureId(h.next_id)) == Some(at),
{
    crate::history::lemma_position(h.features, FeatureId(h.next_id), 0);
    let after = h.inserted(at, name, kind);
    assert forall|i: int| 0 <= i < after.features.len() implies after.features[i] == (if i < at {
        h.features[i]
    } else if i == at {
        after.features[at]
    } else {
        h.features[i - 1]
    }) by {}
    crate::history::lemma_position(after.features, FeatureId(h.next_id), 0);
    assert(after.features[at].id == FeatureId(h.next_id));
}

/// Where ids are distinct, a feature is found where it stands.
proof fn lemma_found_where_it_stands(features: Seq<FeatureModel>, j: int)
    requires
        0 <= j < features.len(),
        forall|a: int, b: int|
            #![trigger features[a], features[b]]
            0 <= a < b < features.len() ==> features[a].id != features[b].id,
    ensures
        crate::history::position(features, features[j].id, 0) == Some(j),
{
    crate::history::lemma_position(features, features[j].id, 0);
}

/// Inserting a feature whose inputs all stand before it keeps every reference
/// pointing backward.
pub proof fn law_adding_keeps_references(
    h: HistoryModel,
    at: int,
    name: Seq<char>,
    kind: KindModel,
)
    requires
        h.well_formed(),
        crate::history::sound(h.features),
        h.next_id < u64::MAX,
        0 <= at <= h.features.len(),
        forall|k: int|
            0 <= k < kind.inputs().len() ==> crate::history::backward(
                h.features,
                at,
                #[trigger] kind.inputs()[k],
            ),
    ensures
        h.inserted(at, name, kind).well_formed(),
        crate::history::sound(h.inserted(at, name, kind).features),
{
    law_new_ids_are_fresh(h, at, name, kind);
    let after = h.inserted(at, name, kind).features;
    assert forall|i: int, k: int|
        #![trigger after[i].kind.inputs()[k]]
        0 <= i < after.len() && 0 <= k < after[i].kind.inputs().len() implies crate::history::backward(
        after,
        i,
        after[i].kind.inputs()[k],
    ) by {
        let input = after[i].kind.inputs()[k];
        let was = if i < at {
            i
        } else if i == at {
            at
        } else {
            i - 1
        };
        if i == at {
            assert(crate::history::backward(h.features, at, kind.inputs()[k]));
        } else {
            assert(after[i] == h.features[was]);
            assert(crate::history::backward(h.features, was, h.features[was].kind.inputs()[k]));
        }
        crate::history::lemma_position(h.features, input, 0);
        let j = crate::history::position(h.features, input, 0)->Some_0;
        let now = if j < at {
            j
        } else {
            j + 1
        };
        assert(after[now] == h.features[j]);
        lemma_found_where_it_stands(after, now);
    }
}

/// Removing and moving features keep ids distinct.
pub proof fn law_edits_keep_ids_distinct(h: HistoryModel, at: int, to: int)
    requires
        h.well_formed(),
        0 <= at < h.features.len(),
        0 <= to,
    ensures
        h.removed(at).well_formed(),
        h.moved(at, to).well_formed(),
{
    let rest = h.features.remove(at);
    assert forall|i: int| 0 <= i < rest.len() implies #[trigger] rest[i] == (if i < at {
        h.features[i]
    } else {
        h.features[i + 1]
    }) by {}
    let gone = h.removed(at).features;
    assert forall|i: int| 0 <= i < gone.len() implies (#[trigger] gone[i]).id == rest[i].id by {}
    let moved = h.moved(at, to).features;
    let stop = if to < rest.len() {
        to
    } else {
        rest.len() as int
    };
    assert forall|i: int| 0 <= i < moved.len() implies #[trigger] moved[i] == (if i < stop {
        rest[i]
    } else if i == stop {
        h.features[at]
    } else {
        rest[i - 1]
    }) by {}
}

/// References are only ever to ids that were handed out: so it is where every
/// reference points backward, and adding, removing and moving features and replacing
/// operations keep it so. Removing may leave a reference to a feature that is gone.
pub proof fn law_references_are_given(
    h: HistoryModel,
    at: int,
    to: int,
    name: Seq<char>,
    kind: KindModel,
)
    requires
        h.well_formed(),
        h.references_given() || crate::history::sound(h.features),
        h.next_id < u64::MAX,
        forall|k: int| 0 <= k < kind.inputs().len() ==> (#[trigger] kind.inputs()[k]).0 < h.next_id,
        0 <= to,
    ensures
        h.references_given(),
        0 <= at <= h.features.len() ==> h.inserted(at, name, kind).references_given(),
        0 <= at < h.features.len() ==> h.removed(at).references_given(),
        0 <= at < h.features.len() ==> h.moved(at, to).references_given(),
        0 <= at < h.features.len() ==> h.with_kind(h.features[at].id, kind).references_given(),
{
    let all = h.features;
    assert forall|i: int, k: int|
        #![trigger all[i].kind.inputs()[k]]
        0 <= i < all.len() && 0 <= k < all[i].kind.inputs().len() implies all[i].kind.inputs()[k].0
        < h.next_id by {
        if crate::history::sound(all) {
            assert(crate::history::backward(all, i, all[i].kind.inputs()[k]));
            crate::history::lemma_position(all, all[i].kind.inputs()[k], 0);
        }
    }
    if 0 <= at <= all.len() {
        let after = h.inserted(at, name, kind);
        assert forall|i: int, k: int|
            #![trigger after.features[i].kind.inputs()[k]]
            0 <= i < after.features.len() && 0 <= k
                < after.features[i].kind.inputs().len() implies after.features[i].kind.inputs()[k].0
            < after.next_id by {
            if i < at {
                assert(all[i].kind.inputs()[k].0 < h.next_id);
            } else if i > at {
                assert(all[i - 1].kind.inputs()[k].0 < h.next_id);
            } else {
                assert(kind.inputs()[k].0 < h.next_id);
            }
        }
    }
    if 0 <= at < all.len() {
        let rest = all.remove(at);
        let gone = all[at];
        let after = h.removed(at);
        assert forall|i: int, k: int|
            #![trigger after.features[i].kind.inputs()[k]]
            0 <= i < after.features.len() && 0 <= k
                < after.features[i].kind.inputs().len() implies after.features[i].kind.inputs()[k].0
            < after.next_id by {
            let was = if i < at {
                i
            } else {
                i + 1
            };
            assert(rest[i] == all[was]);
            if let Some(p) = gone.kind.primary_input() {
                assert(gone.kind.inputs()[0] == p);
                assert(all[at].kind.inputs()[0].0 < h.next_id);
                crate::features::lemma_rewired_inputs(
                    all[was].kind,
                    crate::features::swapping(gone.id, p),
                );
            }
            assert(all[was].kind.inputs()[k].0 < h.next_id);
        }
        let moved = h.moved(at, to);
        let stop = if to < rest.len() {
            to
        } else {
            rest.len() as int
        };
        assert forall|i: int, k: int|
            #![trigger moved.features[i].kind.inputs()[k]]
            0 <= i < moved.features.len() && 0 <= k
                < moved.features[i].kind.inputs().len() implies moved.features[i].kind.inputs()[k].0
            < moved.next_id by {
            let mid = if i < stop {
                i
            } else {
                i - 1
            };
            let was = if i == stop {
                at
            } else if mid < at {
                mid
            } else {
                mid + 1
            };
            assert(moved.features[i] == all[was]);
            assert(all[was].kind.inputs()[k].0 < h.next_id);
        }
        let changed = h.with_kind(gone.id, kind);
        crate::history::lemma_position(all, gone.id, 0);
        assert forall|i: int, k: int|
            #![trigger changed.features[i].kind.inputs()[k]]
            0 <= i < changed.features.len() && 0 <= k
                < changed.features[i].kind.inputs().len() implies changed.features[i].kind.inputs()[k].0
            < changed.next_id by {
            if changed.features[i] == all[i] {
                assert(all[i].kind.inputs()[k].0 < h.next_id);
            } else {
                assert(kind.inputs()[k].0 < h.next_id);
            }
        }
    }
}

/// Removing a feature that has an input heals its dependents: if every
/// reference pointed backward before, every reference points backward after.
/// The same holds of a feature nothing refers to.
pub proof fn law_removal_heals(h: HistoryModel, id: FeatureId)
    requires
        h.well_formed(),
        crate::history::sound(h.features),
        h.index(id) is Some,
        h.features[h.index(id)->Some_0].kind.primary_input() is Some || forall|i: int|
            0 <= i < h.features.len() ==> !(#[trigger] h.features[i]).kind.inputs().contains(id),
    ensures
        crate::history::sound(h.removed(h.index(id)->Some_0).features),
{
    let at = h.index(id)->Some_0;
    crate::history::lemma_position(h.features, id, 0);
    let gone = h.features[at];
    let rest = h.features.remove(at);
    let after = h.removed(at).features;
    assert forall|i: int, k: int|
        #![trigger after[i].kind.inputs()[k]]
        0 <= i < after.len() && 0 <= k < after[i].kind.inputs().len() implies crate::history::backward(
        after,
        i,
        after[i].kind.inputs()[k],
    ) by {
        let m = if i < at {
            i
        } else {
            i + 1
        };
        assert(rest[i] == h.features[m]);
        let before = h.features[m].kind;
        match gone.kind.primary_input() {
            Some(p) => {
                crate::features::lemma_rewired_inputs(before, crate::features::swapping(id, p));
                assert(gone.kind.inputs()[0] == p);
                assert(crate::history::backward(h.features, at, gone.kind.inputs()[0]));
            },
            None => {},
        }
        let x = before.inputs()[k];
        assert(crate::history::backward(h.features, m, before.inputs()[k]));
        let y = after[i].kind.inputs()[k];
        if x == id {
            assert(before.inputs().contains(id));
            assert(m > at);
        }
        crate::history::lemma_position(h.features, y, 0);
        let j = crate::history::position(h.features, y, 0)->Some_0;
        let new_j = if j < at {
            j
        } else {
            j - 1
        };
        assert(j != at);
        assert(after[new_j].id == y);
        crate::history::lemma_position(after, y, 0);
        assert(new_j < i);
    }
}

/// A dependent of a removed feature without inputs keeps its reference, and
/// validation names it as unknown.
pub proof fn law_orphans_are_reported(h: HistoryModel, id: FeatureId, i: int, k: int)
    requires
        h.well_formed(),
        h.index(id) is Some,
        h.features[h.index(id)->Some_0].kind.primary_input() is None,
        0 <= i < h.removed(h.index(id)->Some_0).features.len(),
        0 <= k < h.removed(h.index(id)->Some_0).features[i].kind.inputs().len(),
        h.removed(h.index(id)->Some_0).features[i].kind.inputs()[k] == id,
    ensures
        ({
            let after = h.removed(h.index(id)->Some_0).features;
            crate::history::dependency_errors(after, after.len()).contains(
                DependencyError::UnknownInput { feature: after[i].id, input: id },
            )
        }),
{
    let at = h.index(id)->Some_0;
    crate::history::lemma_position(h.features, id, 0);
    let after = h.removed(at).features;
    assert forall|j: int| 0 <= j < after.len() implies (#[trigger] after[j]).id != id by {
        let m = if j < at {
            j
        } else {
            j + 1
        };
        assert(after[j] == h.features[m]);
    }
    crate::history::lemma_position(after, id, 0);
    let e = DependencyError::UnknownInput { feature: after[i].id, input: id };
    lemma_feature_error_listed(after, i, k, after[i].kind.inputs().len(), e);
    lemma_error_listed(after, i, after.len(), e);
}

pub proof fn lemma_feature_error_listed(
    features: Seq<FeatureModel>,
    i: int,
    k: int,
    count: nat,
    e: DependencyError,
)
    requires
        0 <= k < count,
        crate::history::reference_error(features, i, features[i].kind.inputs()[k]) == Some(e),
    ensures
        crate::history::feature_errors(features, i, count).contains(e),
    decreases count,
{
    let all = crate::history::feature_errors(features, i, count);
    let before = crate::history::feature_errors(features, i, (count - 1) as nat);
    if k == count - 1 {
        assert(all[before.len() as int] == e);
    } else {
        lemma_feature_error_listed(features, i, k, (count - 1) as nat, e);
        let j = before.index_of(e);
        assert(all[j] == e);
    }
}

pub proof fn lemma_error_listed(features: Seq<FeatureModel>, i: int, count: nat, e: DependencyError)
    requires
        0 <= i < count <= features.len(),
        crate::history::feature_errors(features, i, features[i].kind.inputs().len()).contains(e),
    ensures
        crate::history::dependency_errors(features, count).contains(e),
    decreases count,
{
    let last = count - 1;
    let before = crate::history::dependency_errors(features, last as nat);
    let own = crate::history::feature_errors(features, last, features[last].kind.inputs().len());
    let all = crate::history::dependency_errors(features, count);
    if i == last {
        let j = own.index_of(e);
        assert(all[before.len() + j] == e);
    } else {
        lemma_error_listed(features, i, last as nat, e);
        let j = before.index_of(e);
        assert(all[j] == e);
    }
}

/// The number for the next feature named after a base exceeds every number in
/// use, so a gap left by a deletion is never filled.
pub proof fn law_numbers_never_backfill(h: HistoryModel, base: Seq<char>, i: int)
    requires
        0 <= i < h.features.len(),
    ensures
        crate::text::number_in(h.features[i].name, base) matches Some(n) ==> n < h.next_number(
            base,
        ),
{
    lemma_highest(h.features, base);
}

/// The highest number is in use, and no number in use exceeds it.
pub proof fn lemma_highest(features: Seq<FeatureModel>, base: Seq<char>)
    ensures
        match crate::history::highest_number(features, base) {
            Some(m) => {
                &&& exists|i: int|
                    0 <= i < features.len() && crate::text::number_in(
                        (#[trigger] features[i]).name,
                        base,
                    ) == Some(m)
                &&& forall|i: int|
                    0 <= i < features.len() ==> (crate::text::number_in(
                        (#[trigger] features[i]).name,
                        base,
                    ) matches Some(n) ==> n <= m)
            },
            None => forall|i: int|
                0 <= i < features.len() ==> crate::text::number_in(
                    (#[trigger] features[i]).name,
                    base,
                ) is None,
        },
    decreases features.len(),
{
    if features.len() > 0 {
        let front = features.drop_last();
        lemma_highest(front, base);
        assert forall|i: int| 0 <= i < features.len() implies #[trigger] features[i] == (if i
            < front.len() {
            front[i]
        } else {
            features.last()
        }) by {}
        match crate::history::highest_number(front, base) {
            Some(m) => {
                let i = choose|i: int|
                    0 <= i < front.len() && crate::text::number_in((#[trigger] front[i]).name, base)
                        == Some(m);
                assert(features[i] == front[i]);
            },
            None => {},
        }
        assert(features[front.len() as int] == features.last());
    }
}

/// Numbers climb: after a numbered feature was added, the next number is one
/// more than the one it got.
pub proof fn law_numbers_climb(d: DocumentModel, base: Seq<char>, kind: KindModel)
    requires
        d.history.next_number(base) <= u32::MAX,
    ensures
        ({
            let n = d.history.next_number(base);
            d.added(crate::text::numbered(base, n), kind).history.next_number(base) == n + 1
        }),
{
    let n = d.history.next_number(base);
    let name = crate::text::numbered(base, n);
    let after = d.added(name, kind).history;
    let at = d.active_len() as int;
    crate::text::law_numbers_read_back(base, n as u32);
    lemma_highest(d.history.features, base);
    lemma_highest(after.features, base);
    assert(after.features[at].name == name);
    assert forall|i: int| 0 <= i < after.features.len() implies #[trigger] after.features[i] == (if i
        < at {
        d.history.features[i]
    } else if i == at {
        after.features[at]
    } else {
        d.history.features[i - 1]
    }) by {}
    match crate::history::highest_number(after.features, base) {
        Some(m) => {
            assert(n <= m);
            let i = choose|i: int|
                0 <= i < after.features.len() && crate::text::number_in(
                    (#[trigger] after.features[i]).name,
                    base,
                ) == Some(m);
            if i != at {
                let j = if i < at {
                    i
                } else {
                    i - 1
                };
                assert(d.history.features[j] == after.features[i]);
            }
        },
        None => {},
    }
}

/// A feature added to a document is its last active one, wherever the bar
/// stood, and the active features before it stay as they were.
pub proof fn law_new_features_are_active(d: DocumentModel, name: Seq<char>, kind: KindModel)
    requires
        d.history.next_id < u64::MAX,
    ensures
        ({
            let after = d.added(name, kind);
            &&& after.active() == d.active().push(
                FeatureModel { id: FeatureId(d.history.next_id), name, suppressed: false, kind },
            )
            &&& after.history.features.skip(after.active_len() as int) == d.history.features.skip(
                d.active_len() as int,
            )
        }),
{
    let after = d.added(name, kind);
    assert(after.active() =~= d.active().push(
        FeatureModel { id: FeatureId(d.history.next_id), name, suppressed: false, kind },
    ));
    assert(after.history.features.skip(after.active_len() as int) =~= d.history.features.skip(
        d.active_len() as int,
    ));
}

/// A duplicate stands on its own: in a history where every reference points
/// backward the copies refer only to copies, every reference still points
/// backward, and ids stay distinct.
pub proof fn law_duplicates_are_independent(h: HistoryModel, root: FeatureId)
    requires
        h.well_formed(),
        crate::history::sound(h.features),
        h.index(root) is Some,
        h.next_id + crate::history::subtree(h.features, root).len() <= u64::MAX,
    ensures
        h.duplicated(root).well_formed(),
        crate::history::sound(h.duplicated(root).features),
        forall|i: int, k: int|
            #![trigger h.duplicated(root).features[i].kind.inputs()[k]]
            h.features.len() <= i < h.duplicated(root).features.len() && 0 <= k
                < h.duplicated(root).features[i].kind.inputs().len() ==> h.next_id
                <= h.duplicated(root).features[i].kind.inputs()[k].0 < h.duplicated(root).next_id,
        h.duplicated(root).features.take(h.features.len() as int) == h.features,
{
    let all = h.features;
    let list = crate::history::subtree(all, root);
    let from = lemma_subtree_places(h, root);
    let first = h.next_id;
    let after = h.duplicated(root);
    let n = all.len() as int;
    assert(after.features.take(n) =~= all);
    assert forall|i: int| 0 <= i < list.len() implies crate::history::position(
        list,
        (#[trigger] list[i]).id,
        0,
    ) == Some(i) by {
        crate::history::lemma_position(list, list[i].id, 0);
        let j = crate::history::position(list, list[i].id, 0)->Some_0;
        if j != i {
            assert(all[from[j]].id != all[from[i]].id);
        }
    }
    assert forall|i: int| 0 <= i < after.features.len() implies (#[trigger] after.features[i]).id.0
        < after.next_id && (i >= n ==> after.features[i].id.0 == first + (i - n)) by {
        if i < n {
            assert(after.features[i] == all[i]);
        }
    }
    assert(after.well_formed()) by {
        assert forall|i: int, j: int|
            #![trigger after.features[i], after.features[j]]
            0 <= i < j < after.features.len() implies after.features[i].id
            != after.features[j].id by {
            if j < n {
                assert(after.features[i] == all[i] && after.features[j] == all[j]);
            } else if i < n {
                assert(after.features[i] == all[i]);
            }
        }
    }
    assert forall|i: int, k: int|
        #![trigger after.features[i].kind.inputs()[k]]
        0 <= i < after.features.len() && 0 <= k < after.features[i].kind.inputs().len() implies {
        &&& crate::history::backward(after.features, i, after.features[i].kind.inputs()[k])
        &&& i >= n ==> first <= after.features[i].kind.inputs()[k].0 < after.next_id
    } by {
        let y = after.features[i].kind.inputs()[k];
        crate::history::lemma_position(after.features, y, 0);
        if i < n {
            assert(after.features[i] == all[i]);
            assert(crate::history::backward(all, i, all[i].kind.inputs()[k]));
            crate::history::lemma_position(all, y, 0);
            let j = crate::history::position(all, y, 0)->Some_0;
            assert(after.features[j] == all[j]);
        } else {
            let c = i - n;
            let source = list[c];
            crate::features::lemma_rewired_inputs(
                source.kind,
                crate::history::renaming(list, first),
            );
            let x = source.kind.inputs()[k];
            assert(y == crate::history::renamed(list, first, x));
            assert(source == all[from[c]]);
            assert(crate::history::backward(all, from[c], all[from[c]].kind.inputs()[k]));
            crate::history::lemma_position(all, x, 0);
            let m = crate::history::position(all, x, 0)->Some_0;
            crate::history::lemma_feeds_step(all, root, from[c], k);
            assert(crate::history::feeds(all, root, all[m].id));
            let d = lemma_place_of(from, m, list.len(), all, root);
            assert(from[d] == m && d < c) by {
                if d >= c && d != c {
                    assert(from[c] < from[d]);
                }
            }
            assert(list[d].id == x);
            assert(crate::history::position(list, list[d].id, 0) == Some(d));
            assert(y == FeatureId((first + d) as u64));
            assert(after.features[n + d].id == y);
            assert(crate::history::position(after.features, y, 0)->Some_0 <= n + d);
        }
    }
}

/// Where in the list of places `m` stands.
proof fn lemma_place_of(
    from: Seq<int>,
    m: int,
    count: nat,
    all: Seq<FeatureModel>,
    root: FeatureId,
) -> (d: int)
    requires
        from.len() == count,
        0 <= m < all.len(),
        crate::history::feeds(all, root, all[m].id),
        forall|i: int|
            0 <= i < all.len() && crate::history::feeds(all, root, (#[trigger] all[i]).id)
                ==> from.contains(i),
    ensures
        0 <= d < from.len(),
        from[d] == m,
{
    assert(from.contains(m));
    from.index_of(m)
}

/// The places in the history that a subtree's features come from.
pub proof fn lemma_subtree_places(h: HistoryModel, root: FeatureId) -> (from: Seq<int>)
    ensures
        from.len() == crate::history::subtree(h.features, root).len(),
        forall|k: int|
            0 <= k < from.len() ==> 0 <= #[trigger] from[k] < h.features.len() && h.features[from[k]]
                == crate::history::subtree(h.features, root)[k] && crate::history::feeds(
                h.features,
                root,
                h.features[from[k]].id,
            ),
        forall|k: int, l: int| 0 <= k < l < from.len() ==> from[k] < from[l],
        forall|i: int|
            0 <= i < h.features.len() && crate::history::feeds(
                h.features,
                root,
                (#[trigger] h.features[i]).id,
            ) ==> from.contains(i),
{
    let all = h.features;
    let from = lemma_filter_places(all, |f: FeatureModel| crate::history::feeds(all, root, f.id));
    from
}

proof fn lemma_filter_places(
    all: Seq<FeatureModel>,
    pick: spec_fn(FeatureModel) -> bool,
) -> (from: Seq<int>)
    ensures
        from.len() == all.filter(pick).len(),
        forall|k: int|
            0 <= k < from.len() ==> 0 <= #[trigger] from[k] < all.len() && all[from[k]]
                == all.filter(pick)[k] && pick(all[from[k]]),
        forall|k: int, l: int| 0 <= k < l < from.len() ==> from[k] < from[l],
        forall|i: int| 0 <= i < all.len() && pick(#[trigger] all[i]) ==> from.contains(i),
    decreases all.len(),
{
    reveal(Seq::filter);
    if all.len() == 0 {
        seq![]
    } else {
        let front = all.drop_last();
        let before = lemma_filter_places(front, pick);
        let last = all.len() - 1;
        let from = if pick(all.last()) {
            before.push(last)
        } else {
            before
        };
        assert forall|i: int| 0 <= i < all.len() && pick(#[trigger] all[i]) implies from.contains(
            i,
        ) by {
            if i < last {
                assert(front[i] == all[i]);
                let j = before.index_of(i);
                assert(from[j] == i);
            } else {
                assert(from[before.len() as int] == i);
            }
        }
        assert forall|k: int| 0 <= k < from.len() implies 0 <= #[trigger] from[k] < all.len()
            && all[from[k]] == all.filter(pick)[k] && pick(all[from[k]]) by {
            if k < before.len() {
                assert(from[k] == before[k]);
                assert(front[before[k]] == all[before[k]]);
            }
        }
        from
    }
}

} // verus!
