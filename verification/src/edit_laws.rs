//! What edits do to a history.

use crate::document::DocumentModel;
use crate::features::{FeatureId, FeatureModel, KindModel};
use crate::history::{DependencyError, HistoryModel};
use vstd::prelude::*;

verus! {

/// Two operations are the same but for the features they refer to: with every
/// reference put aside nothing tells them apart, and they refer equally often.
pub open spec fn same_but_references(a: KindModel, b: KindModel) -> bool {
    let aside = |id: FeatureId| FeatureId(0);
    a.rewired(aside) == b.rewired(aside) && a.inputs().len() == b.inputs().len()
}

/// Rewiring changes references and nothing else.
pub proof fn law_rewiring_changes_references_only(
    kind: KindModel,
    f: spec_fn(FeatureId) -> FeatureId,
    k: int,
)
    ensures
        same_but_references(kind.rewired(f), kind),
        0 <= k < kind.inputs().len() ==> kind.rewired(f).inputs()[k] == f(kind.inputs()[k]),
        (forall|i: int| 0 <= i < kind.inputs().len() ==> f(#[trigger] kind.inputs()[i])
            == kind.inputs()[i]) ==> kind.rewired(f) == kind,
{
    crate::features::lemma_rewired_inputs(kind, f);
    let aside = |id: FeatureId| FeatureId(0);
    match kind {
        KindModel::Group { members } => {
            assert(members.map_values(f).map_values(aside) =~= members.map_values(aside));
            if forall|i: int| 0 <= i < kind.inputs().len() ==> f(#[trigger] kind.inputs()[i])
                == kind.inputs()[i] {
                assert forall|i: int| 0 <= i < members.len() implies f(members[i])
                    == members[i] by {
                    assert(kind.inputs()[i] == members[i]);
                }
                assert(members.map_values(f) =~= members);
            }
        },
        _ => {
            let inputs = kind.inputs();
            if forall|i: int| 0 <= i < inputs.len() ==> f(#[trigger] inputs[i]) == inputs[i] {
                assert(inputs.len() > 0 ==> f(inputs[0]) == inputs[0]);
                assert(inputs.len() > 1 ==> f(inputs[1]) == inputs[1]);
            }
        },
    }
}

/// Removing takes out one feature. The others keep their order, ids, names and
/// parameters; a reference to the removed one leads to the first feature it referred
/// to itself, if there is one, and every other reference stays.
pub proof fn law_removing_takes_out_one_feature(h: HistoryModel, at: int, i: int, k: int)
    requires
        0 <= at < h.features.len(),
        0 <= i < h.features.len() - 1,
    ensures
        ({
            let gone = h.features[at];
            let was = h.features[if i < at {
                i
            } else {
                i + 1
            }];
            let now = h.removed(at).features[i];
            &&& h.removed(at).features.len() == h.features.len() - 1
            &&& h.removed(at).next_id == h.next_id
            &&& now.id == was.id
            &&& now.name == was.name
            &&& now.suppressed == was.suppressed
            &&& same_but_references(now.kind, was.kind)
            &&& 0 <= k < was.kind.inputs().len() ==> now.kind.inputs()[k] == (if was.kind.inputs()[k]
                == gone.id && gone.kind.inputs().len() > 0 {
                gone.kind.inputs()[0]
            } else {
                was.kind.inputs()[k]
            })
        }),
{
    let gone = h.features[at];
    let rest = h.features.remove(at);
    let was = rest[i];
    if let Some(p) = gone.kind.primary_input() {
        law_rewiring_changes_references_only(
            was.kind,
            crate::features::swapping(gone.id, p),
            k,
        );
    }
}

/// Moving puts one feature in another place, or at the end if there are not so many,
/// and leaves the order of the others as it is; nothing else changes.
pub proof fn law_moving_keeps_the_others_in_order(h: HistoryModel, from: int, to: int)
    requires
        0 <= from < h.features.len(),
        0 <= to,
    ensures
        ({
            let now = h.moved(from, to);
            let at = if to < h.features.len() - 1 {
                to
            } else {
                h.features.len() - 1
            };
            &&& now.features.len() == h.features.len()
            &&& now.features[at] == h.features[from]
            &&& now.features.remove(at) == h.features.remove(from)
            &&& now.next_id == h.next_id
        }),
{
    let now = h.moved(from, to);
    let rest = h.features.remove(from);
    let at = if to < h.features.len() - 1 {
        to
    } else {
        h.features.len() - 1
    };
    assert(now.features.remove(at) =~= rest);
}

/// A feature is moved exactly if every reference still points backward then;
/// otherwise nothing changes.
pub proof fn law_only_sound_orders_are_taken(h: HistoryModel, id: FeatureId, to: int)
    requires
        h.index(id) is Some,
        0 <= to,
    ensures
        ({
            let moved = h.moved(h.index(id)->Some_0, to);
            h.reordered(id, to) == (if crate::history::sound(moved.features) {
                moved
            } else {
                h
            })
        }),
{
    crate::history_laws::law_validation_is_soundness(h.moved(h.index(id)->Some_0, to).features);
}

/// Suppressing a feature touches that one flag; replacing an operation that one
/// operation.
pub proof fn law_an_edit_touches_one_feature(
    h: HistoryModel,
    id: FeatureId,
    suppressed: bool,
    kind: KindModel,
    i: int,
)
    requires
        h.well_formed(),
        0 <= i < h.features.len(),
    ensures
        ({
            let (was, now) = (h.features[i], h.with_suppressed(id, suppressed).features[i]);
            &&& h.with_suppressed(id, suppressed).features.len() == h.features.len()
            &&& h.with_suppressed(id, suppressed).next_id == h.next_id
            &&& now.id == was.id && now.name == was.name && now.kind == was.kind
            &&& now.suppressed == (if was.id == id {
                suppressed
            } else {
                was.suppressed
            })
        }),
        ({
            let (was, now) = (h.features[i], h.with_kind(id, kind).features[i]);
            &&& h.with_kind(id, kind).features.len() == h.features.len()
            &&& h.with_kind(id, kind).next_id == h.next_id
            &&& now.id == was.id && now.name == was.name && now.suppressed == was.suppressed
            &&& now.kind == (if was.id == id {
                kind
            } else {
                was.kind
            })
        }),
{
    crate::history::lemma_position(h.features, id, 0);
    if let Some(at) = h.index(id) {
        if i < at {
            assert(h.features[i].id != h.features[at].id);
        } else if at < i {
            assert(h.features[at].id != h.features[i].id);
        }
    }
}

/// Where every reference of a copy leads: to the copy of the feature that the original
/// refers to.
pub open spec fn copy_of(
    h: HistoryModel,
    after: HistoryModel,
    from: Seq<int>,
    c: int,
) -> bool {
    let was = h.features[from[c]];
    let now = after.features[h.features.len() + c];
    &&& now.id.0 == h.next_id + c
    &&& now.name == was.name
    &&& now.suppressed == was.suppressed
    &&& same_but_references(now.kind, was.kind)
    &&& forall|k: int, d: int|
        #![trigger was.kind.inputs()[k], from[d]]
        0 <= k < was.kind.inputs().len() && 0 <= d < from.len() && h.features[from[d]].id
            == was.kind.inputs()[k] ==> now.kind.inputs()[k].0 == h.next_id + d
}

/// A duplicate is the same part once more: a copy of every feature that the body is
/// made from, in history order, with the same name and parameters, and each referring
/// to the copies where the originals refer to one another. What was there stays.
pub proof fn law_a_duplicate_is_the_same_part(h: HistoryModel, root: FeatureId)
    requires
        h.well_formed(),
        h.next_id + crate::history::subtree(h.features, root).len() <= u64::MAX,
    ensures
        ({
            let after = h.duplicated(root);
            let n = h.features.len();
            exists|from: Seq<int>|
                {
                    &&& after.features.len() == n + from.len()
                    &&& after.next_id == h.next_id + from.len()
                    &&& #[trigger] places_that_feed(h, root, from)
                    &&& forall|c: int| 0 <= c < from.len() ==> #[trigger] copy_of(h, after, from, c)
                    &&& forall|i: int| 0 <= i < n ==> #[trigger] after.features[i] == h.features[i]
                }
        }),
{
    let all = h.features;
    let list = crate::history::subtree(all, root);
    let from = crate::history_laws::lemma_subtree_places(h, root);
    let after = h.duplicated(root);
    let n = all.len() as int;
    let f = crate::history::renaming(list, h.next_id);
    assert forall|c: int| 0 <= c < from.len() implies #[trigger] copy_of(h, after, from, c) by {
        let was = all[from[c]];
        assert(list[c] == was);
        let now = after.features[n + c];
        law_rewiring_changes_references_only(was.kind, f, 0);
        assert forall|k: int, d: int|
            #![trigger was.kind.inputs()[k], from[d]]
            0 <= k < was.kind.inputs().len() && 0 <= d < from.len() && all[from[d]].id
                == was.kind.inputs()[k] implies now.kind.inputs()[k].0 == h.next_id + d by {
            law_rewiring_changes_references_only(was.kind, f, k);
            let x = was.kind.inputs()[k];
            crate::history::lemma_position(list, x, 0);
            assert(list[d] == all[from[d]]);
            let p = crate::history::position(list, x, 0)->Some_0;
            assert(list[p] == all[from[p]]);
            if p < d {
                assert(from[p] < from[d]);
                assert(all[from[p]].id != all[from[d]].id);
            }
        }
    }
    assert(places_that_feed(h, root, from)) by {
        assert forall|i: int|
            0 <= i < all.len() && crate::history::feeds(
                all,
                root,
                (#[trigger] all[i]).id,
            ) implies from.contains(i) by {}
    }
    assert forall|i: int| 0 <= i < n implies #[trigger] after.features[i] == all[i] by {}
}

/// The places of the features that feed `root`, one after the other.
pub open spec fn places_that_feed(h: HistoryModel, root: FeatureId, from: Seq<int>) -> bool {
    &&& forall|c: int|
        0 <= c < from.len() ==> 0 <= #[trigger] from[c] < h.features.len() && crate::history::feeds(
            h.features,
            root,
            h.features[from[c]].id,
        )
    &&& forall|c: int, d: int|
        #![trigger from[c], from[d]]
        0 <= c < d < from.len() ==> from[c] < from[d]
    &&& forall|i: int|
        0 <= i < h.features.len() && crate::history::feeds(
            h.features,
            root,
            (#[trigger] h.features[i]).id,
        ) ==> from.contains(i)
}

/// A body is fed by its own feature and, with a feature, by everything that feature
/// refers to, and by nothing else.
pub proof fn law_what_feeds_a_body(features: Seq<FeatureModel>, root: FeatureId, i: int, k: int)
    ensures
        crate::history::feeds(features, root, root),
        0 <= i < features.len() && 0 <= k < features[i].kind.inputs().len()
            && crate::history::feeds(features, root, features[i].id) ==> crate::history::feeds(
            features,
            root,
            features[i].kind.inputs()[k],
        ),
        forall|set: Set<FeatureId>, x: FeatureId|
            crate::history::feeds(features, root, x) && set.contains(root)
                && #[trigger] crate::history::closed_under_inputs(features, set)
                ==> #[trigger] set.contains(x),
{
    if 0 <= i < features.len() && 0 <= k < features[i].kind.inputs().len()
        && crate::history::feeds(features, root, features[i].id) {
        crate::history::lemma_feeds_step(features, root, i, k);
    }
}

/// What is wrong with a reference, in words of the history: nobody has the id, or
/// nobody before has it.
pub open spec fn is_fault(features: Seq<FeatureModel>, e: DependencyError, i: int, k: int) -> bool {
    let input = features[i].kind.inputs()[k];
    let known = exists|j: int| 0 <= j < features.len() && (#[trigger] features[j]).id == input;
    let earlier = exists|j: int| 0 <= j < i && (#[trigger] features[j]).id == input;
    match e {
        DependencyError::UnknownInput { feature, input: x } => feature == features[i].id && x
            == input && !known,
        DependencyError::ForwardReference { feature, input: x } => feature == features[i].id && x
            == input && known && !earlier,
    }
}

/// Validation names every bad reference and no good one: an error is there exactly for
/// a reference to an id that nobody has, and for one that nobody before has.
pub proof fn law_errors_name_the_bad_references(
    features: Seq<FeatureModel>,
    i: int,
    k: int,
    e: DependencyError,
)
    requires
        0 <= i < features.len(),
        0 <= k < features[i].kind.inputs().len(),
    ensures
        ({
            let errors = crate::history::dependency_errors(features, features.len());
            &&& is_fault(features, e, i, k) ==> errors.contains(e)
            &&& errors.contains(e) ==> exists|a: int, b: int|
                0 <= a < features.len() && 0 <= b < features[a].kind.inputs().len()
                    && #[trigger] is_fault(features, e, a, b)
        }),
{
    lemma_fault(features, i, k);
    if is_fault(features, e, i, k) {
        assert(crate::history::reference_error(features, i, features[i].kind.inputs()[k]) == Some(
            e,
        ));
        crate::history_laws::lemma_feature_error_listed(
            features,
            i,
            k,
            features[i].kind.inputs().len(),
            e,
        );
        crate::history_laws::lemma_error_listed(features, i, features.len(), e);
    }
    if crate::history::dependency_errors(features, features.len()).contains(e) {
        lemma_listed_errors_are_faults(features, features.len(), e);
    }
}

/// What is said of a reference is its fault.
proof fn lemma_fault(features: Seq<FeatureModel>, i: int, k: int)
    requires
        0 <= i < features.len(),
        0 <= k < features[i].kind.inputs().len(),
    ensures
        forall|e: DependencyError| #[trigger]
            is_fault(features, e, i, k) == (crate::history::reference_error(
                features,
                i,
                features[i].kind.inputs()[k],
            ) == Some(e)),
{
    let input = features[i].kind.inputs()[k];
    crate::history::lemma_position(features, input, 0);
    if let Some(p) = crate::history::position(features, input, 0) {
        assert(features[p].id == input);
    }
}

proof fn lemma_listed_errors_are_faults(
    features: Seq<FeatureModel>,
    count: nat,
    e: DependencyError,
)
    requires
        count <= features.len(),
        crate::history::dependency_errors(features, count).contains(e),
    ensures
        exists|a: int, b: int|
            0 <= a < features.len() && 0 <= b < features[a].kind.inputs().len()
                && #[trigger] is_fault(features, e, a, b),
    decreases count,
{
    if count > 0 {
        let last = count - 1;
        let before = crate::history::dependency_errors(features, last as nat);
        let own = crate::history::feature_errors(
            features,
            last,
            features[last].kind.inputs().len(),
        );
        let all = crate::history::dependency_errors(features, count);
        let j = all.index_of(e);
        assert(all[j] == e);
        if j < before.len() {
            assert(before[j] == e);
            lemma_listed_errors_are_faults(features, last as nat, e);
        } else {
            assert(own[j - before.len()] == e);
            lemma_own_errors_are_faults(
                features,
                last,
                features[last].kind.inputs().len(),
                e,
            );
        }
    }
}

proof fn lemma_own_errors_are_faults(
    features: Seq<FeatureModel>,
    i: int,
    count: nat,
    e: DependencyError,
)
    requires
        0 <= i < features.len(),
        count <= features[i].kind.inputs().len(),
        crate::history::feature_errors(features, i, count).contains(e),
    ensures
        exists|b: int|
            0 <= b < features[i].kind.inputs().len() && #[trigger] is_fault(features, e, i, b),
    decreases count,
{
    if count > 0 {
        let k = count - 1;
        let before = crate::history::feature_errors(features, i, k as nat);
        let all = crate::history::feature_errors(features, i, count);
        let j = all.index_of(e);
        assert(all[j] == e);
        lemma_fault(features, i, k);
        if j < before.len() {
            assert(before[j] == e);
            lemma_own_errors_are_faults(features, i, k as nat, e);
        } else {
            assert(is_fault(features, e, i, k));
        }
    }
}

/// The bar takes in the features before it: moving it to a place makes that many
/// active, all if there are not so many, and changes no feature.
pub proof fn law_the_bar_takes_in_what_is_before_it(d: DocumentModel, position: nat)
    ensures
        ({
            let n = d.history.features.len();
            let now = d.rolled_to(position);
            &&& now.active().len() == (if position < n {
                position
            } else {
                n
            })
            &&& now.active().is_prefix_of(d.history.features)
            &&& now.history == d.history
            &&& now.name == d.name
            &&& now.units == d.units
            &&& d.at_tip().active() == d.history.features
            &&& d.at_tip().history == d.history
        }),
{
    let n = d.history.features.len();
    assert(d.at_tip().active() =~= d.history.features);
}

/// What stands for a duplicated body is the copy of its own feature: a new feature with
/// the same name and parameters.
pub proof fn law_the_duplicate_is_the_copy_of_the_body(h: HistoryModel, root: FeatureId)
    requires
        h.well_formed(),
        h.index(root) is Some,
        h.next_id + crate::history::subtree(h.features, root).len() <= u64::MAX,
    ensures
        ({
            let list = crate::history::subtree(h.features, root);
            let copy = crate::history::renamed(list, h.next_id, root);
            let was = h.features[h.index(root)->Some_0];
            exists|i: int|
                {
                    &&& h.features.len() <= i < h.duplicated(root).features.len()
                    &&& (#[trigger] h.duplicated(root).features[i]).id == copy
                    &&& h.duplicated(root).features[i].name == was.name
                    &&& same_but_references(h.duplicated(root).features[i].kind, was.kind)
                }
        }),
{
    let all = h.features;
    let n = all.len() as int;
    let list = crate::history::subtree(all, root);
    let from = crate::history_laws::lemma_subtree_places(h, root);
    crate::history::lemma_position(all, root, 0);
    let at = h.index(root)->Some_0;
    law_what_feeds_a_body(all, root, 0, 0);
    assert(crate::history::feeds(all, root, all[at].id));
    assert(from.contains(at));
    let d = from.index_of(at);
    assert(list[d] == all[at]);
    crate::history::lemma_position(list, root, 0);
    let p = crate::history::position(list, root, 0)->Some_0;
    assert(list[p] == all[from[p]]);
    if p < d {
        assert(from[p] < from[d]);
        assert(all[from[p]].id != all[from[d]].id);
    }
    let f = crate::history::renaming(list, h.next_id);
    law_rewiring_changes_references_only(all[at].kind, f, 0);
    assert(h.duplicated(root).features[n + d].id == crate::history::renamed(
        list,
        h.next_id,
        root,
    ));
}

/// The number for the next feature of a base is one where no number is in use, and one
/// more than a number in use otherwise.
pub proof fn law_the_next_number_is_one_more(h: HistoryModel, base: Seq<char>)
    ensures
        h.next_number(base) == 1 || exists|i: int|
            0 <= i < h.features.len() && (crate::text::number_in(
                (#[trigger] h.features[i]).name,
                base,
            ) matches Some(n) && n + 1 == h.next_number(base)),
        (forall|i: int|
            0 <= i < h.features.len() ==> crate::text::number_in(
                (#[trigger] h.features[i]).name,
                base,
            ) is None) ==> h.next_number(base) == 1,
{
    crate::history_laws::lemma_highest(h.features, base);
}

} // verus!
