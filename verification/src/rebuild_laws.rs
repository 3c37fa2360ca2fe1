//! What a replay shows, and what a cached replay leaves alone.

use crate::backend::Step;
use crate::cache::{CacheModel, EntryModel};
use crate::document::DocumentModel;
use crate::features::{FeatureId, FeatureModel};
use crate::regen::{Outcome, RegenError, Replay};
use vstd::prelude::*;

verus! {

/// One of the failures is the feature's.
pub open spec fn failed_in<E>(errors: Seq<RegenError<E>>, id: FeatureId) -> bool {
    exists|j: int| 0 <= j < errors.len() && (#[trigger] errors[j]).culprit() == id
}

/// A failure is recorded and isolated: every active feature either has a body or
/// is among the failures, never both, and a suppressed feature has neither.
pub proof fn law_every_feature_builds_or_fails<B, E>(
    features: Seq<FeatureModel>,
    results: Seq<Result<B, E>>,
    i: int,
)
    requires
        crate::regen_laws::distinct_ids(features),
        0 <= i < features.len(),
    ensures
        ({
            let out = crate::regen::replay(features, results);
            let id = features[i].id;
            if features[i].suppressed {
                !out.bodies.contains_key(id.0) && !failed_in(out.errors, id)
            } else {
                out.bodies.contains_key(id.0) != failed_in(out.errors, id)
            }
        }),
{
    lemma_settled_by(features, results, i, features.len());
    assert(features.take(features.len() as int) =~= features);
}

/// The features behind the failures, in order.
pub open spec fn culprits<E>(errors: Seq<RegenError<E>>) -> Seq<FeatureId> {
    Seq::new(errors.len(), |j: int| errors[j].culprit())
}

/// A feature fails at most once, and the failures stand in history order: those
/// behind them stand in the history one after another.
pub proof fn law_failures_stand_in_history_order<B, E>(
    features: Seq<FeatureModel>,
    results: Seq<Result<B, E>>,
)
    requires
        crate::regen_laws::distinct_ids(features),
    ensures
        ({
            let who = culprits(crate::regen::replay(features, results).errors);
            &&& in_history_order(features, who)
            &&& who.no_duplicates()
            &&& forall|j: int| 0 <= j < who.len() ==> 0 <= place(features, #[trigger] who[j])
        }),
{
    lemma_failures_upto(features, results, features.len());
    assert(features.take(features.len() as int) =~= features);
    let who = culprits(crate::regen::replay(features, results).errors);
    assert forall|a: int, b: int| 0 <= a < b < who.len() implies who[a] != who[b] by {
        assert(place(features, who[a]) < place(features, who[b]));
    }
}

/// The failures after the first `k` features are theirs, in order.
proof fn lemma_failures_upto<B, E>(
    features: Seq<FeatureModel>,
    results: Seq<Result<B, E>>,
    k: nat,
)
    requires
        crate::regen_laws::distinct_ids(features),
        k <= features.len(),
    ensures
        ({
            let who = culprits(crate::regen::replay(features.take(k as int), results).errors);
            &&& in_history_order(features, who)
            &&& forall|j: int| 0 <= j < who.len() ==> 0 <= place(features, #[trigger] who[j]) < k
        }),
    decreases k,
{
    if k == 0 {
        assert(features.take(0) =~= seq![]);
    } else {
        lemma_failures_upto(features, results, (k - 1) as nat);
        let part = features.take(k as int);
        assert(part.drop_last() =~= features.take(k - 1));
        let f = features[k - 1];
        assert(part.last() == f);
        let before = culprits(crate::regen::replay(part.drop_last(), results).errors);
        let now = culprits(crate::regen::replay(part, results).errors);
        crate::history::lemma_position(features, f.id, 0);
        assert(place(features, f.id) == k - 1) by {
            let p = place(features, f.id);
            if p < k - 1 {
                assert(features[p].id != features[k - 1].id);
            }
        }
        assert(now =~= before || now =~= before.push(f.id));
        assert forall|j: int| 0 <= j < now.len() implies 0 <= place(
            features,
            #[trigger] now[j],
        ) < k by {
            if j < before.len() {
                assert(now[j] == before[j]);
            }
        }
        assert forall|a: int, b: int|
            #![trigger now[a], now[b]]
            0 <= a < b < now.len() implies place(features, now[a]) < place(features, now[b]) by {
            assert(now[a] == before[a]);
            if b < before.len() {
                assert(now[b] == before[b]);
            }
        }
    }
}

/// Where feature `i` stands after the first `k` features: nothing is known of it
/// before its turn, and its fate does not change after it.
proof fn lemma_settled_by<B, E>(
    features: Seq<FeatureModel>,
    results: Seq<Result<B, E>>,
    i: int,
    k: nat,
)
    requires
        crate::regen_laws::distinct_ids(features),
        0 <= i < features.len(),
        k <= features.len(),
    ensures
        ({
            let out = crate::regen::replay(features.take(k as int), results);
            let id = features[i].id;
            if features[i].suppressed || k <= i {
                !out.bodies.contains_key(id.0) && !failed_in(out.errors, id)
            } else {
                out.bodies.contains_key(id.0) != failed_in(out.errors, id)
            }
        }),
    decreases k,
{
    if k == 0 {
        assert(features.take(0) =~= seq![]);
    } else {
        lemma_settled_by(features, results, i, (k - 1) as nat);
        let part = features.take(k as int);
        assert(part.drop_last() =~= features.take(k - 1));
        let before = crate::regen::replay(part.drop_last(), results);
        let now = crate::regen::replay(part, results);
        let f = part.last();
        let id = features[i].id;
        if k - 1 != i {
            assert(f == features[k - 1]);
            assert(f.id != id);
            assert(failed_in(now.errors, id) == failed_in(before.errors, id)) by {
                if now.errors != before.errors {
                    assert(now.errors.drop_last() =~= before.errors);
                }
                lemma_errors_of_others(before.errors, now.errors, f.id, id);
            }
        } else if !f.suppressed {
            if now.errors.len() > before.errors.len() {
                assert(now.errors[before.errors.len() as int].culprit() == id);
            }
        }
    }
}

proof fn lemma_errors_of_others<E>(
    before: Seq<RegenError<E>>,
    now: Seq<RegenError<E>>,
    who: FeatureId,
    id: FeatureId,
)
    requires
        who != id,
        now == before || (now.len() == before.len() + 1 && now.drop_last() == before
            && now.last().culprit() == who),
    ensures
        failed_in(now, id) == failed_in(before, id),
{
    if failed_in(before, id) {
        let j = choose|j: int| 0 <= j < before.len() && (#[trigger] before[j]).culprit() == id;
        assert(now[j] == before[j]);
    }
    if failed_in(now, id) && now != before {
        let j = choose|j: int| 0 <= j < now.len() && (#[trigger] now[j]).culprit() == id;
        assert(before[j] == now[j]);
    }
}

/// Feature `i` was built, and no feature built later consumes it.
pub open spec fn shown<B>(features: Seq<FeatureModel>, bodies: Map<u64, B>, i: int) -> bool {
    &&& bodies.contains_key(features[i].id.0)
    &&& forall|j: int|
        i < j < features.len() && bodies.contains_key((#[trigger] features[j]).id.0)
            ==> !features[j].kind.inputs().contains(features[i].id)
}

/// Earlier in the list means earlier in the history.
pub open spec fn in_history_order(features: Seq<FeatureModel>, ids: Seq<FeatureId>) -> bool {
    forall|a: int, b: int|
        #![trigger ids[a], ids[b]]
        0 <= a < b < ids.len() ==> place(features, ids[a]) < place(features, ids[b])
}

/// Where a feature stands in the history.
pub open spec fn place(features: Seq<FeatureModel>, id: FeatureId) -> int {
    match crate::history::position(features, id, 0) {
        Some(i) => i,
        None => -1,
    }
}

/// What is visible is exactly what was built and not consumed by a feature built
/// later: each such feature once, in history order.
pub proof fn law_visible_is_what_is_left<B, E>(
    features: Seq<FeatureModel>,
    results: Seq<Result<B, E>>,
)
    requires
        crate::regen_laws::distinct_ids(features),
    ensures
        ({
            let out = crate::regen::replay(features, results);
            &&& forall|i: int|
                0 <= i < features.len() ==> out.visible.contains((#[trigger] features[i]).id)
                    == shown(features, out.bodies, i)
            &&& forall|a: int|
                0 <= a < out.visible.len() ==> place(features, #[trigger] out.visible[a]) >= 0
            &&& in_history_order(features, out.visible)
        }),
{
    lemma_visible_upto(features, results, features.len());
    let all = features.take(features.len() as int);
    assert(all =~= features);
}

proof fn lemma_visible_upto<B, E>(
    features: Seq<FeatureModel>,
    results: Seq<Result<B, E>>,
    k: nat,
)
    requires
        crate::regen_laws::distinct_ids(features),
        k <= features.len(),
    ensures
        ({
            let out = crate::regen::replay(features.take(k as int), results);
            &&& forall|i: int|
                0 <= i < k ==> out.visible.contains((#[trigger] features[i]).id) == shown(
                    features.take(k as int),
                    out.bodies,
                    i,
                )
            &&& forall|a: int|
                0 <= a < out.visible.len() ==> 0 <= place(features, #[trigger] out.visible[a]) < k
            &&& in_history_order(features, out.visible)
        }),
    decreases k,
{
    if k == 0 {
        assert(features.take(0) =~= seq![]);
    } else {
        lemma_visible_upto(features, results, (k - 1) as nat);
        let part = features.take(k as int);
        let done = part.drop_last();
        assert(done =~= features.take(k - 1));
        let before = crate::regen::replay(done, results);
        let now = crate::regen::replay(part, results);
        let f = part.last();
        assert(f == features[k - 1]);
        lemma_settled_by(features, results, k - 1, (k - 1) as nat);
        crate::history::lemma_position(features, f.id, 0);
        assert(features[k - 1].id == f.id);
        assert(place(features, f.id) == k - 1);
        let inputs = f.kind.inputs();
        if now.bodies.contains_key(f.id.0) {
            assert(now.bodies.remove(f.id.0) =~= before.bodies);
            lemma_consumed(features, before.visible, inputs);
            let left = crate::regen::consumed(before.visible, inputs);
            assert(now.visible == left.push(f.id));
            assert forall|x: FeatureId| now.visible.contains(x) == (left.contains(x) || x
                == f.id) by {
                if left.contains(x) {
                    let a = left.index_of(x);
                    assert(now.visible[a] == x);
                }
                assert(now.visible[left.len() as int] == f.id);
                if now.visible.contains(x) && x != f.id {
                    let a = now.visible.index_of(x);
                    assert(left[a] == x);
                }
            }
            assert forall|x: FeatureId| #[trigger] now.visible.contains(x) == ((
            before.visible.contains(x) && !inputs.contains(x)) || x == f.id) by {
                assert(crate::regen::consumed(before.visible, inputs).contains(x) == (
                before.visible.contains(x) && !inputs.contains(x)));
            }
            assert forall|a: int| 0 <= a < left.len() implies 0 <= place(
                features,
                #[trigger] left[a],
            ) < k - 1 by {
                assert(left.contains(left[a]));
                let b = before.visible.index_of(left[a]);
                assert(before.visible[b] == left[a]);
            }
            assert(in_history_order(features, now.visible)) by {
                assert forall|a: int, b: int|
                    #![trigger now.visible[a], now.visible[b]]
                    0 <= a < b < now.visible.len() implies place(features, now.visible[a]) < place(
                    features,
                    now.visible[b],
                ) by {
                    assert(now.visible[a] == left[a]);
                    if b < left.len() {
                        assert(now.visible[b] == left[b]);
                    }
                }
            }
            assert forall|a: int| 0 <= a < now.visible.len() implies 0 <= place(
                features,
                #[trigger] now.visible[a],
            ) < k by {
                if a < left.len() {
                    assert(now.visible[a] == left[a]);
                }
            }
        } else {
            assert(now.visible == before.visible);
        }
        assert forall|i: int| 0 <= i < k implies now.visible.contains((#[trigger] features[i]).id)
            == shown(part, now.bodies, i) by {
            lemma_shown_step(features, before, now, k, i);
        }
    }
}

/// How one more feature changes what is shown.
proof fn lemma_shown_step<B, E>(
    features: Seq<FeatureModel>,
    before: Replay<B, E>,
    now: Replay<B, E>,
    k: nat,
    i: int,
)
    requires
        crate::regen_laws::distinct_ids(features),
        0 < k <= features.len(),
        0 <= i < k,
        i < k - 1 ==> before.visible.contains(features[i].id) == shown(
            features.take(k - 1),
            before.bodies,
            i,
        ),
        !before.bodies.contains_key(features[k - 1].id.0),
        forall|a: int|
            0 <= a < before.visible.len() ==> place(features, #[trigger] before.visible[a]) < k - 1,
        now.bodies == before.bodies || now.bodies.remove(features[k - 1].id.0) == before.bodies,
        now.bodies.contains_key(features[k - 1].id.0) ==> forall|x: FeatureId| #[trigger]
            now.visible.contains(x) == ((before.visible.contains(x)
                && !features[k - 1].kind.inputs().contains(x)) || x == features[k - 1].id),
        !now.bodies.contains_key(features[k - 1].id.0) ==> now.visible == before.visible,
    ensures
        now.visible.contains(features[i].id) == shown(features.take(k as int), now.bodies, i),
{
    let part = features.take(k as int);
    let done = features.take(k - 1);
    let f = features[k - 1];
    let id = features[i].id;
    assert forall|j: int| 0 <= j < k - 1 implies now.bodies.contains_key(
        (#[trigger] features[j]).id.0,
    ) == before.bodies.contains_key(features[j].id.0) by {
        assert(features[j].id != f.id);
        assert(features[j].id.0 != f.id.0);
    }
    if i == k - 1 {
        if !now.bodies.contains_key(f.id.0) {
            if before.visible.contains(f.id) {
                let a = before.visible.index_of(f.id);
                assert(before.visible[a] == f.id);
                crate::history::lemma_position(features, f.id, 0);
                assert(place(features, f.id) == k - 1);
            }
        }
    } else {
        assert(id != f.id);
        if shown(done, before.bodies, i) && !(now.bodies.contains_key(f.id.0)
            && f.kind.inputs().contains(id)) {
            assert forall|j: int| i < j < part.len() && now.bodies.contains_key(
                (#[trigger] part[j]).id.0,
            ) implies !part[j].kind.inputs().contains(part[i].id) by {
                if j < k - 1 {
                    assert(done[j] == features[j]);
                }
            }
        }
        if shown(part, now.bodies, i) {
            assert forall|j: int| i < j < done.len() && before.bodies.contains_key(
                (#[trigger] done[j]).id.0,
            ) implies !done[j].kind.inputs().contains(done[i].id) by {
                assert(part[j] == done[j]);
            }
            assert(part[k - 1] == f);
        }
    }
}

/// Consuming takes out exactly the inputs and keeps the order.
proof fn lemma_consumed(features: Seq<FeatureModel>, visible: Seq<FeatureId>, inputs: Seq<FeatureId>)
    requires
        in_history_order(features, visible),
    ensures
        in_history_order(features, crate::regen::consumed(visible, inputs)),
        forall|x: FeatureId| #[trigger]
            crate::regen::consumed(visible, inputs).contains(x) == (visible.contains(x)
                && !inputs.contains(x)),
    decreases inputs.len(),
{
    if inputs.len() > 0 {
        let front = inputs.drop_last();
        let last = inputs.last();
        lemma_consumed(features, visible, front);
        let before = crate::regen::consumed(visible, front);
        let after = before.remove_value(last);
        before.index_of_first_ensures(last);
        assert forall|x: FeatureId| #[trigger] after.contains(x) == (before.contains(x) && x
            != last) by {
            lemma_removed_value(features, before, last, x);
        }
        assert forall|x: FeatureId| inputs.contains(x) == (front.contains(x) || x == last) by {
            if front.contains(x) {
                let a = front.index_of(x);
                assert(inputs[a] == x);
            }
            assert(inputs[inputs.len() - 1] == last);
            if inputs.contains(x) && x != last {
                let a = inputs.index_of(x);
                assert(front[a] == x);
            }
        }
        match before.index_of_first(last) {
            Some(p) => {
                assert forall|a: int, b: int|
                    #![trigger after[a], after[b]]
                    0 <= a < b < after.len() implies place(features, after[a]) < place(
                    features,
                    after[b],
                ) by {
                    let qa = if a < p {
                        a
                    } else {
                        a + 1
                    };
                    let qb = if b < p {
                        b
                    } else {
                        b + 1
                    };
                    assert(after[a] == before[qa] && after[b] == before[qb]);
                }
            },
            None => {},
        }
    }
}

proof fn lemma_removed_value(
    features: Seq<FeatureModel>,
    before: Seq<FeatureId>,
    last: FeatureId,
    x: FeatureId,
)
    requires
        in_history_order(features, before),
    ensures
        before.remove_value(last).contains(x) == (before.contains(x) && x != last),
{
    before.index_of_first_ensures(last);
    let after = before.remove_value(last);
    match before.index_of_first(last) {
        Some(p) => {
            if before.contains(x) && x != last {
                let a = before.index_of(x);
                assert(before[a] == x);
                if a < p {
                    assert(after[a] == x);
                } else {
                    assert(after[a - 1] == x);
                }
            }
            if after.contains(x) {
                let a = after.index_of(x);
                let q = if a < p {
                    a
                } else {
                    a + 1
                };
                assert(before[q] == x);
                if x == last {
                    if q < p {
                        assert(place(features, before[q]) < place(features, before[p]));
                    } else {
                        assert(place(features, before[p]) < place(features, before[q]));
                    }
                }
            }
        },
        None => {},
    }
}

/// What is remembered of a feature is up to date: it was built by an equal
/// operation from the inputs as they are remembered.
pub open spec fn up_to_date<B>(entries: Map<u64, EntryModel<B>>, f: FeatureModel) -> bool {
    &&& entries.contains_key(f.id.0)
    &&& entries[f.id.0].kind.equals(f.kind)
    &&& entries[f.id.0].input_versions == crate::cache::versions(entries, f.kind.inputs())
}

/// What is remembered of every feature is up to date.
pub open spec fn settled<B>(entries: Map<u64, EntryModel<B>>, features: Seq<FeatureModel>) -> bool {
    forall|i: int|
        0 <= i < features.len() && !(#[trigger] features[i]).suppressed ==> up_to_date(
            entries,
            features[i],
        )
}

/// The set holds every feature that is out of date and, with a feature, every
/// feature that consumes it.
pub open spec fn covers<B>(
    changed: Set<FeatureId>,
    entries: Map<u64, EntryModel<B>>,
    features: Seq<FeatureModel>,
) -> bool {
    forall|i: int|
        #![trigger features[i]]
        0 <= i < features.len() && !features[i].suppressed && !changed.contains(features[i].id) ==> {
            &&& up_to_date(entries, features[i])
            &&& forall|k: int|
                0 <= k < features[i].kind.inputs().len() ==> !changed.contains(
                    #[trigger] features[i].kind.inputs()[k],
                )
        }
}

/// How many features of the list are in the set.
pub open spec fn count_in(features: Seq<FeatureModel>, set: Set<FeatureId>) -> nat
    decreases features.len(),
{
    if features.len() == 0 {
        0
    } else {
        count_in(features.drop_last(), set) + (if set.contains(features.last().id) {
            1nat
        } else {
            0
        })
    }
}

/// A cached pass asks the backend only for what changed and what lies downstream
/// of it: any set that holds the features that are out of date and, with a
/// feature, those that consume it, holds every feature the pass rebuilds.
pub proof fn law_only_changes_are_rebuilt<B, E>(
    cache: CacheModel<B>,
    features: Seq<FeatureModel>,
    results: Seq<Result<B, E>>,
    copies: Seq<B>,
    changed: Set<FeatureId>,
)
    requires
        crate::regen_laws::distinct_ids(features),
        crate::history::sound(features),
        covers(changed, cache.entries, features),
    ensures
        crate::cache::pass(cache, features, results, copies).replay.calls.len() <= count_in(
            features,
            changed,
        ),
{
    lemma_untouched_upto(cache, features, results, copies, changed, features.len());
    assert(features.take(features.len() as int) =~= features);
}

/// Part-way through a pass, a feature outside the set is either remembered as it
/// was or has no body.
proof fn lemma_untouched_upto<B, E>(
    cache: CacheModel<B>,
    features: Seq<FeatureModel>,
    results: Seq<Result<B, E>>,
    copies: Seq<B>,
    changed: Set<FeatureId>,
    k: nat,
)
    requires
        k <= features.len(),
        crate::regen_laws::distinct_ids(features),
        crate::history::sound(features),
        covers(changed, cache.entries, features),
    ensures
        ({
            let state = crate::cache::pass(cache, features.take(k as int), results, copies);
            &&& state.replay.calls.len() <= count_in(features.take(k as int), changed)
            &&& forall|i: int|
                0 <= i < features.len() && !changed.contains((#[trigger] features[i]).id)
                    && state.replay.bodies.contains_key(features[i].id.0)
                    ==> state.entries.contains_key(features[i].id.0)
                    && state.entries[features[i].id.0] == cache.entries[features[i].id.0]
                    && cache.entries.contains_key(features[i].id.0)
            &&& forall|i: int|
                k <= i < features.len() ==> {
                    &&& !state.replay.bodies.contains_key((#[trigger] features[i]).id.0)
                    &&& state.entries.contains_key(features[i].id.0)
                        == cache.entries.contains_key(features[i].id.0)
                    &&& state.entries[features[i].id.0] == cache.entries[features[i].id.0]
                }
        }),
    decreases k,
{
    let part = features.take(k as int);
    if k == 0 {
        assert(part =~= seq![]);
    } else {
        lemma_untouched_upto(cache, features, results, copies, changed, (k - 1) as nat);
        assert(part.drop_last() =~= features.take(k - 1));
        let f = part.last();
        assert(f == features[k - 1]);
        let state = crate::cache::pass(cache, part.drop_last(), results, copies);
        let now = crate::cache::pass(cache, part, results, copies);
        let inputs = f.kind.inputs();
        assert forall|i: int| 0 <= i < features.len() && i != k - 1 implies (
        #[trigger] features[i]).id.0 != f.id.0 by {
            assert(features[i].id != features[k - 1].id);
        }
        if !f.suppressed && !changed.contains(f.id) {
            assert(up_to_date(cache.entries, f));
            if crate::regen::first_missing(state.replay.bodies, inputs, 0) is None {
                crate::regen_laws::lemma_first_missing(state.replay.bodies, inputs, 0);
                assert forall|q: int| 0 <= q < inputs.len() implies crate::cache::versions(
                    state.entries,
                    inputs,
                )[q] == crate::cache::versions(cache.entries, inputs)[q] by {
                    assert(crate::history::backward(features, k - 1, features[k - 1].kind.inputs()[q]));
                    crate::history::lemma_position(features, inputs[q], 0);
                    let j = crate::history::position(features, inputs[q], 0)->Some_0;
                    assert(features[j].id == inputs[q]);
                    assert(!changed.contains(features[k - 1].kind.inputs()[q]));
                }
                assert(crate::cache::versions(state.entries, inputs) =~= crate::cache::versions(
                    cache.entries,
                    inputs,
                ));
                assert(state.reusable(f));
            } else {
                crate::regen_laws::lemma_plan_needs_inputs(f.kind, state.replay.bodies);
                crate::regen_laws::lemma_first_missing(state.replay.bodies, inputs, 0);
                assert(crate::regen::plan(f.kind, state.replay.bodies) is Err);
            }
        }
    }
}

/// A document replayed again unchanged rebuilds nothing.
pub proof fn law_unchanged_rebuilds_nothing<B, E>(
    cache: CacheModel<B>,
    features: Seq<FeatureModel>,
    results: Seq<Result<B, E>>,
    copies: Seq<B>,
)
    requires
        crate::regen_laws::distinct_ids(features),
        crate::history::sound(features),
        settled(cache.entries, features),
    ensures
        crate::cache::pass(cache, features, results, copies).replay.calls.len() == 0,
{
    let none = Set::<FeatureId>::empty();
    law_only_changes_are_rebuilt(cache, features, results, copies, none);
    lemma_count_in_none(features);
}

proof fn lemma_count_in_none(features: Seq<FeatureModel>)
    ensures
        count_in(features, Set::<FeatureId>::empty()) == 0,
    decreases features.len(),
{
    if features.len() > 0 {
        lemma_count_in_none(features.drop_last());
    }
}

/// After a pass in which nothing failed, everything remembered is up to date. A
/// parameter that is not a number equals nothing, itself included, so features
/// with such parameters stay out.
pub proof fn law_a_clean_pass_settles<B, E>(
    cache: CacheModel<B>,
    features: Seq<FeatureModel>,
    results: Seq<Result<B, E>>,
    copies: Seq<B>,
)
    requires
        crate::regen_laws::distinct_ids(features),
        crate::history::sound(features),
        forall|i: int|
            0 <= i < features.len() ==> (#[trigger] features[i]).kind.equals(features[i].kind),
        crate::cache::pass(cache, features, results, copies).replay.errors.len() == 0,
    ensures
        settled(crate::cache::pass(cache, features, results, copies).entries, features),
{
    lemma_settled_upto(cache, features, results, copies, features.len());
    assert(features.take(features.len() as int) =~= features);
}

proof fn lemma_no_errors_before<B, E>(
    cache: CacheModel<B>,
    features: Seq<FeatureModel>,
    results: Seq<Result<B, E>>,
    copies: Seq<B>,
    k: nat,
)
    requires
        k <= features.len(),
        crate::cache::pass(cache, features, results, copies).replay.errors.len() == 0,
    ensures
        crate::cache::pass(
            cache,
            features.take(k as int),
            results,
            copies,
        ).replay.errors.len() == 0,
    decreases features.len() - k,
{
    if k < features.len() {
        let front = features.drop_last();
        assert(front.take(k as int) =~= features.take(k as int));
        lemma_no_errors_before(cache, front, results, copies, k);
    } else {
        assert(features.take(k as int) =~= features);
    }
}

proof fn lemma_settled_upto<B, E>(
    cache: CacheModel<B>,
    features: Seq<FeatureModel>,
    results: Seq<Result<B, E>>,
    copies: Seq<B>,
    k: nat,
)
    requires
        k <= features.len(),
        crate::regen_laws::distinct_ids(features),
        crate::history::sound(features),
        forall|i: int|
            0 <= i < features.len() ==> (#[trigger] features[i]).kind.equals(features[i].kind),
        crate::cache::pass(cache, features, results, copies).replay.errors.len() == 0,
    ensures
        settled(
            crate::cache::pass(cache, features.take(k as int), results, copies).entries,
            features.take(k as int),
        ),
    decreases k,
{
    let part = features.take(k as int);
    if k > 0 {
        lemma_settled_upto(cache, features, results, copies, (k - 1) as nat);
        assert(part.drop_last() =~= features.take(k - 1));
        lemma_no_errors_before(cache, features, results, copies, k);
        let done = part.drop_last();
        let f = part.last();
        assert(f == features[k - 1]);
        let state = crate::cache::pass(cache, done, results, copies);
        let now = crate::cache::pass(cache, part, results, copies);
        assert forall|i: int| 0 <= i < part.len() && !(#[trigger] part[i]).suppressed implies up_to_date(
            now.entries,
            part[i],
        ) by {
            let inputs = part[i].kind.inputs();
            assert(part[i] == features[i]);
            assert forall|q: int| 0 <= q < inputs.len() implies crate::cache::versions(
                now.entries,
                inputs,
            )[q] == crate::cache::versions(state.entries, inputs)[q] by {
                // An input comes earlier, so this turn did not touch it.
                assert(crate::history::backward(features, i, features[i].kind.inputs()[q]));
                crate::history::lemma_position(features, inputs[q], 0);
                let j = crate::history::position(features, inputs[q], 0)->Some_0;
                assert(features[j].id != features[k - 1].id);
                assert(inputs[q].0 != f.id.0);
            }
            assert(crate::cache::versions(now.entries, inputs) =~= crate::cache::versions(
                state.entries,
                inputs,
            ));
            if i < k - 1 {
                assert(done[i] == part[i]);
                assert(up_to_date(state.entries, done[i]));
                assert(features[i].id != features[k - 1].id);
                assert(part[i].id.0 != f.id.0);
            }
        }
    }
}

/// Replaying a document a second time without a change asks the backend for
/// nothing, if nothing failed the first time.
pub proof fn law_second_replay_is_free<B: Clone, E>(
    cache: CacheModel<B>,
    doc: DocumentModel,
    logs: (Seq<Step<B, E>>, Seq<Step<B, E>>, Seq<Step<B, E>>),
    outcomes: (Outcome<B, E>, Outcome<B, E>),
    caches: (CacheModel<B>, CacheModel<B>),
    copies: (Seq<B>, Seq<B>),
)
    requires
        crate::regen_laws::distinct_ids(doc.active()),
        crate::history::sound(doc.active()),
        forall|i: int|
            0 <= i < doc.active().len() ==> (#[trigger] doc.active()[i]).kind.equals(
                doc.active()[i].kind,
            ),
        crate::cache::incremental(
            cache,
            doc,
            logs.0,
            logs.1,
            outcomes.0,
            caches.0,
            copies.0,
        ),
        outcomes.0.errors.len() == 0,
        crate::cache::incremental(
            caches.0,
            doc,
            logs.1,
            logs.2,
            outcomes.1,
            caches.1,
            copies.1,
        ),
    ensures
        logs.2 == logs.1,
{
    let features = doc.active();
    let answers = crate::regen::answers_since(logs.0, logs.1);
    let out = crate::cache::pass(cache, features, answers, copies.0);
    law_a_clean_pass_settles(cache, features, answers, copies.0);
    let kept = caches.0.entries;
    assert forall|i: int| 0 <= i < features.len() implies crate::cache::listed(
        doc.history.features,
        (#[trigger] features[i]).id.0,
    ) by {
        assert(doc.history.features[i] == features[i]);
    }
    assert forall|i: int| 0 <= i < features.len() && !(#[trigger] features[i]).suppressed implies up_to_date(
        kept,
        features[i],
    ) by {
        let inputs = features[i].kind.inputs();
        assert(up_to_date(out.entries, features[i]));
        assert forall|q: int| 0 <= q < inputs.len() implies crate::cache::versions(kept, inputs)[q]
            == crate::cache::versions(out.entries, inputs)[q] by {
            assert(crate::history::backward(features, i, features[i].kind.inputs()[q]));
            crate::history::lemma_position(features, inputs[q], 0);
            let j = crate::history::position(features, inputs[q], 0)->Some_0;
            assert(features[j].id == inputs[q]);
        }
        assert(crate::cache::versions(kept, inputs) =~= crate::cache::versions(
            out.entries,
            inputs,
        ));
    }
    law_unchanged_rebuilds_nothing(
        caches.0,
        features,
        crate::regen::answers_since(logs.1, logs.2),
        copies.1,
    );
    let n = logs.1.len() as int;
    assert(crate::regen::questions(logs.2.skip(n)).len() == 0);
    assert(logs.2.take(n) =~= logs.2);
}

} // verus!
