//! What holds of every replay.

use crate::backend::{Call, Step};
use crate::cache::{CacheModel, EntryModel, Pass};
use crate::document::DocumentModel;
use crate::features::{FeatureId, FeatureModel, KindModel, PathModel};
use crate::regen::{Fault, Outcome, RegenError, Replay};
use crate::sketch2d::Segment;
use vstd::prelude::*;

verus! {

/// No two features of the list share an id.
pub open spec fn distinct_ids(features: Seq<FeatureModel>) -> bool {
    forall|i: int, j: int|
        #![trigger features[i], features[j]]
        0 <= i < j < features.len() ==> features[i].id != features[j].id
}

pub proof fn lemma_first_missing<B>(bodies: Map<u64, B>, ids: Seq<FeatureId>, from: int)
    requires
        0 <= from,
    ensures
        (crate::regen::first_missing(bodies, ids, from) is None) == (forall|i: int|
            from <= i < ids.len() ==> bodies.contains_key((#[trigger] ids[i]).0)),
        crate::regen::first_missing(bodies, ids, from) matches Some(id) ==> ids.contains(id)
            && !bodies.contains_key(id.0),
    decreases ids.len() - from,
{
    if from < ids.len() {
        lemma_first_missing(bodies, ids, from + 1);
        assert(ids.contains(ids[from]));
    }
}

/// A feature asks something of the backend only if all its inputs are there.
pub proof fn lemma_plan_needs_inputs<B>(kind: KindModel, bodies: Map<u64, B>)
    ensures
        crate::regen::plan(kind, bodies) is Ok ==> forall|i: int|
            0 <= i < kind.inputs().len() ==> bodies.contains_key((#[trigger] kind.inputs()[i]).0),
{
    match kind {
        KindModel::Boolean { target, tool, .. } => {
            lemma_first_missing(bodies, seq![target, tool], 0);
        },
        KindModel::Group { members } => {
            lemma_first_missing(bodies, members, 0);
        },
        _ => {},
    }
}

/// What a feature asks depends on the bodies of its inputs alone.
proof fn lemma_plan_is_local<B>(kind: KindModel, a: Map<u64, B>, b: Map<u64, B>)
    requires
        forall|i: int|
            0 <= i < kind.inputs().len() ==> a.contains_key((#[trigger] kind.inputs()[i]).0)
                && b.contains_key(kind.inputs()[i].0) && a[kind.inputs()[i].0]
                == b[kind.inputs()[i].0],
    ensures
        crate::regen::plan(kind, a) == crate::regen::plan(kind, b),
{
    let inputs = kind.inputs();
    match kind {
        KindModel::Boolean { target, tool, .. } => {
            lemma_first_missing(a, seq![target, tool], 0);
            lemma_first_missing(b, seq![target, tool], 0);
            assert(inputs[0] == target && inputs[1] == tool);
        },
        KindModel::Group { members } => {
            lemma_first_missing(a, members, 0);
            lemma_first_missing(b, members, 0);
            assert(Seq::new(members.len(), |i: int| a[members[i].0]) =~= Seq::new(
                members.len(),
                |i: int| b[members[i].0],
            ));
        },
        KindModel::Extrude { source, .. } => { assert(inputs[0] == source); },
        KindModel::Translate { source, .. } => { assert(inputs[0] == source); },
        KindModel::FilletAll { source, .. } => { assert(inputs[0] == source); },
        KindModel::Fillet { source, .. } => { assert(inputs[0] == source); },
        KindModel::PushPull { source, .. } => { assert(inputs[0] == source); },
        KindModel::Rotate { source, .. } => { assert(inputs[0] == source); },
        KindModel::Scale { source, .. } => { assert(inputs[0] == source); },
        KindModel::Revolve { source, .. } => { assert(inputs[0] == source); },
        KindModel::Mirror { source, .. } => { assert(inputs[0] == source); },
        KindModel::Sweep { profile, .. } => { assert(inputs[0] == profile); },
        _ => {},
    }
}

/// The segments run between the same points.
spec fn same_ends(a: Seq<Segment>, b: Seq<Segment>) -> bool {
    &&& a.len() == b.len()
    &&& forall|i: int| 0 <= i < a.len() ==> (#[trigger] a[i]).a == b[i].a && a[i].b == b[i].b
}

proof fn lemma_next_by_ends(
    a: Seq<Segment>,
    b: Seq<Segment>,
    used: Seq<int>,
    at: crate::sketch::PointId,
    from: int,
)
    requires
        same_ends(a, b),
        0 <= from,
    ensures
        crate::sketch2d::next_segment(a, used, at, from) == crate::sketch2d::next_segment(
            b,
            used,
            at,
            from,
        ),
    decreases a.len() - from,
{
    if from < a.len() {
        assert(a[from].a == b[from].a && a[from].b == b[from].b);
        lemma_next_by_ends(a, b, used, at, from + 1);
    }
}

proof fn lemma_walk_by_ends(
    a: Seq<Segment>,
    b: Seq<Segment>,
    start: crate::sketch::PointId,
    steps: nat,
)
    requires
        same_ends(a, b),
    ensures
        crate::sketch2d::walk(a, start, steps) == crate::sketch2d::walk(b, start, steps),
    decreases steps,
{
    if steps > 0 {
        lemma_walk_by_ends(a, b, start, (steps - 1) as nat);
        match crate::sketch2d::walk(a, start, (steps - 1) as nat) {
            Some(w) => {
                lemma_next_by_ends(a, b, w.path, w.points.last(), 0);
                crate::sketch2d::lemma_next_segment(a, w.path, w.points.last(), 0);
                match crate::sketch2d::next_segment(a, w.path, w.points.last(), 0) {
                    Some(i) => {
                        assert(a[i].a == b[i].a && a[i].b == b[i].b);
                    },
                    None => {},
                }
            },
            None => {},
        }
    }
}

proof fn lemma_degree_by_ends(a: Seq<Segment>, b: Seq<Segment>, p: crate::sketch::PointId)
    requires
        same_ends(a, b),
    ensures
        crate::sketch2d::degree(a, p) == crate::sketch2d::degree(b, p),
    decreases a.len(),
{
    if a.len() > 0 {
        let last = a.len() - 1;
        assert(a[last].a == b[last].a && a[last].b == b[last].b);
        assert(same_ends(a.drop_last(), b.drop_last())) by {
            assert forall|i: int| 0 <= i < last implies (#[trigger] a.drop_last()[i]).a
                == b.drop_last()[i].a && a.drop_last()[i].b == b.drop_last()[i].b by {
                assert(a[i].a == b[i].a && a[i].b == b[i].b);
            }
        }
        lemma_degree_by_ends(a.drop_last(), b.drop_last(), p);
    }
}

proof fn lemma_loose_end_by_ends(a: Seq<Segment>, b: Seq<Segment>, from: int)
    requires
        same_ends(a, b),
        0 <= from,
    ensures
        crate::sketch2d::loose_end(a, from) == crate::sketch2d::loose_end(b, from),
    decreases a.len() - from,
{
    if from < a.len() {
        assert(a[from].a == b[from].a && a[from].b == b[from].b);
        lemma_degree_by_ends(a, b, a[from].a);
        lemma_degree_by_ends(a, b, a[from].b);
        lemma_loose_end_by_ends(a, b, from + 1);
    }
}

/// Equal operations ask something of the backend on the same bodies.
proof fn lemma_equal_kinds_plan_alike<B>(a: KindModel, b: KindModel, bodies: Map<u64, B>)
    requires
        a.equals(b),
    ensures
        a.inputs() == b.inputs(),
        crate::regen::plan(a, bodies) is Ok == crate::regen::plan(b, bodies) is Ok,
{
    match (a, b) {
        (KindModel::ConstraintSketch { sketch: s, .. }, KindModel::ConstraintSketch { sketch: t, .. })
            => {
            lemma_equal_sketches_walk_alike(s, t);
        },
        (
            KindModel::Sweep { path: PathModel::Planar { sketch: s, .. }, .. },
            KindModel::Sweep { path: PathModel::Planar { sketch: t, .. }, .. },
        ) => {
            lemma_equal_sketches_walk_alike(s, t);
        },
        _ => {},
    }
}

proof fn lemma_equal_sketches_walk_alike(
    s: crate::sketch2d::SketchModel,
    t: crate::sketch2d::SketchModel,
)
    requires
        s.equals(t),
    ensures
        s.profile_loop() is Some == t.profile_loop() is Some,
        s.profile_elements() is Some == t.profile_elements() is Some,
        s.path_elements() is Some == t.path_elements() is Some,
{
    assert(s.line_segments() =~= t.line_segments());
    let (a, b) = (s.segments(), t.segments());
    assert(same_ends(a, b)) by {
        assert forall|i: int| 0 <= i < a.len() implies (#[trigger] a[i]).a == b[i].a && a[i].b
            == b[i].b by {
            if i >= s.lines.len() {
                assert(s.beziers[i - s.lines.len()].equals(t.beziers[i - s.lines.len()]));
            }
        }
    }
    if a.len() > 0 {
        assert(a[0].a == b[0].a);
        lemma_walk_by_ends(a, b, a[0].a, a.len());
    }
    lemma_loose_end_by_ends(a, b, 0);
    match crate::sketch2d::loose_end(a, 0) {
        Some(p) => lemma_walk_by_ends(a, b, p, a.len()),
        None => {},
    }
}

/// The replay with a backend that always answers as `f` says.
pub open spec fn ideal<B, E>(
    features: Seq<FeatureModel>,
    f: spec_fn(Call<B>) -> Result<B, E>,
) -> Replay<B, E>
    decreases features.len(),
{
    if features.len() == 0 {
        Replay::start()
    } else {
        ideal_after(ideal(features.drop_last(), f), features.last(), f)
    }
}

/// One feature further with such a backend.
pub open spec fn ideal_after<B, E>(
    state: Replay<B, E>,
    feature: FeatureModel,
    f: spec_fn(Call<B>) -> Result<B, E>,
) -> Replay<B, E> {
    if feature.suppressed {
        state
    } else {
        match crate::regen::plan(feature.kind, state.bodies) {
            Err(fault) => state.failed(fault.of(feature.id)),
            Ok(call) => match f(call) {
                Ok(body) => state.asked(call).built(feature, body),
                Err(source) => state.asked(call).failed(
                    RegenError::Backend { feature: feature.id, source },
                ),
            },
        }
    }
}

/// Since its log was `before`, the backend answered every question as `f` says.
pub open spec fn follows<B, E>(
    before: Seq<Step<B, E>>,
    after: Seq<Step<B, E>>,
    f: spec_fn(Call<B>) -> Result<B, E>,
) -> bool {
    forall|i: int| before.len() <= i < after.len() ==> (#[trigger] after[i]).result == f(after[i].call)
}

/// The answers to two operations on the same bodies are the same.
pub open spec fn answered_alike<B, E>(
    a: KindModel,
    b: KindModel,
    f: spec_fn(Call<B>) -> Result<B, E>,
) -> bool {
    forall|bodies: Map<u64, B>|
        #![trigger crate::regen::plan(a, bodies), crate::regen::plan(b, bodies)]
        crate::regen::plan(a, bodies) is Ok && crate::regen::plan(b, bodies) is Ok ==> f(
            crate::regen::plan(a, bodies)->Ok_0,
        ) == f(crate::regen::plan(b, bodies)->Ok_0)
}

/// Where a feature's operation is equal to the one remembered for it, the answers
/// to the two are the same.
pub open spec fn respects_equality<B, E>(
    cache: CacheModel<B>,
    features: Seq<FeatureModel>,
    f: spec_fn(Call<B>) -> Result<B, E>,
) -> bool {
    forall|i: int|
        #![trigger features[i]]
        0 <= i < features.len() && cache.entries.contains_key(features[i].id.0)
            && cache.entries[features[i].id.0].kind.equals(features[i].kind) ==> answered_alike(
            cache.entries[features[i].id.0].kind,
            features[i].kind,
            f,
        )
}

proof fn lemma_answers_follow<B, E>(
    before: Seq<Step<B, E>>,
    after: Seq<Step<B, E>>,
    calls: Seq<Call<B>>,
    f: spec_fn(Call<B>) -> Result<B, E>,
)
    requires
        crate::regen::asked_in_turn(before, after, calls),
        follows(before, after, f),
    ensures
        crate::regen::answers_since(before, after).len() == calls.len(),
        forall|i: int|
            0 <= i < calls.len() ==> #[trigger] crate::regen::answers_since(before, after)[i] == f(
                calls[i],
            ),
{
    let steps = after.skip(before.len() as int);
    assert(crate::regen::questions(steps).len() == calls.len());
    assert forall|i: int| 0 <= i < calls.len() implies #[trigger] crate::regen::answers_since(
        before,
        after,
    )[i] == f(calls[i]) by {
        assert(crate::regen::questions(steps)[i] == calls[i]);
        assert(steps[i] == after[before.len() + i]);
    }
}

/// With a backend that answers as `f` says, replay gives what `f` makes of the
/// history.
pub proof fn law_replay_follows_the_backend<B, E>(
    features: Seq<FeatureModel>,
    before: Seq<Step<B, E>>,
    after: Seq<Step<B, E>>,
    f: spec_fn(Call<B>) -> Result<B, E>,
)
    requires
        follows(before, after, f),
        crate::regen::asked_in_turn(
            before,
            after,
            crate::regen::replay(features, crate::regen::answers_since(before, after)).calls,
        ),
    ensures
        crate::regen::replay(features, crate::regen::answers_since(before, after)) == ideal(
            features,
            f,
        ),
{
    let answers = crate::regen::answers_since(before, after);
    let out = crate::regen::replay(features, answers);
    lemma_answers_follow(before, after, out.calls, f);
    lemma_replay_is_ideal(features, features.len(), answers, f);
    assert(features.take(features.len() as int) =~= features);
}

proof fn lemma_replay_is_ideal<B, E>(
    features: Seq<FeatureModel>,
    k: nat,
    answers: Seq<Result<B, E>>,
    f: spec_fn(Call<B>) -> Result<B, E>,
)
    requires
        k <= features.len(),
        ({
            let calls = crate::regen::replay(features, answers).calls;
            &&& answers.len() == calls.len()
            &&& forall|i: int| 0 <= i < calls.len() ==> #[trigger] answers[i] == f(calls[i])
        }),
    ensures
        crate::regen::replay(features.take(k as int), answers) == ideal(features.take(k as int), f),
    decreases k,
{
    if k > 0 {
        let part = features.take(k as int);
        lemma_replay_is_ideal(features, (k - 1) as nat, answers, f);
        assert(part.drop_last() =~= features.take(k - 1));
        lemma_calls_are_prefix(features, k, answers);
        let state = crate::regen::replay(part.drop_last(), answers);
        let now = crate::regen::replay(part, answers);
        let calls = crate::regen::replay(features, answers).calls;
        match crate::regen::plan(part.last().kind, state.bodies) {
            Ok(call) => {
                if !part.last().suppressed {
                    let n = state.calls.len() as int;
                    assert(now.calls[n] == call);
                    assert(calls[n] == call);
                    assert(answers[n] == f(call));
                }
            },
            Err(_) => {},
        }
    }
}

/// What was asked early on stays asked.
proof fn lemma_calls_are_prefix<B, E>(
    features: Seq<FeatureModel>,
    k: nat,
    answers: Seq<Result<B, E>>,
)
    requires
        k <= features.len(),
    ensures
        ({
            let some = crate::regen::replay(features.take(k as int), answers).calls;
            let all = crate::regen::replay(features, answers).calls;
            &&& some.len() <= all.len()
            &&& forall|i: int| 0 <= i < some.len() ==> #[trigger] some[i] == all[i]
        }),
    decreases features.len() - k,
{
    if k < features.len() {
        let front = features.drop_last();
        assert(front.take(k as int) =~= features.take(k as int));
        lemma_calls_are_prefix(front, k, answers);
    } else {
        assert(features.take(k as int) =~= features);
    }
}

/// How a remembered body came about: `f` built it by the entry's operation from
/// the bodies the inputs had at the versions noted in the entry.
pub open spec fn explained<B, E>(
    entry: EntryModel<B>,
    version: u64,
    bodies_at: Map<u64, B>,
    f: spec_fn(Call<B>) -> Result<B, E>,
) -> bool {
    let inputs = entry.kind.inputs();
    &&& 1 <= entry.version <= version
    &&& bodies_at[entry.version] == entry.body
    &&& entry.input_versions.len() == inputs.len()
    &&& forall|i: int|
        0 <= i < inputs.len() ==> 1 <= #[trigger] entry.input_versions[i] <= version
    &&& exists|bodies: Map<u64, B>| #[trigger] built_from(entry, bodies, bodies_at, f)
}

/// `f` built the entry's body from `bodies`, which hold the inputs as they were.
pub open spec fn built_from<B, E>(
    entry: EntryModel<B>,
    bodies: Map<u64, B>,
    bodies_at: Map<u64, B>,
    f: spec_fn(Call<B>) -> Result<B, E>,
) -> bool {
    let inputs = entry.kind.inputs();
    &&& forall|i: int|
        0 <= i < inputs.len() ==> bodies.contains_key((#[trigger] inputs[i]).0)
            && bodies[inputs[i].0] == bodies_at[entry.input_versions[i]]
    &&& crate::regen::plan(entry.kind, bodies) matches Ok(call) && f(call) == Ok::<B, E>(entry.body)
}

/// Every remembered body came about as its entry says, for one assignment of
/// bodies to versions.
pub open spec fn trustworthy<B, E>(
    cache: CacheModel<B>,
    f: spec_fn(Call<B>) -> Result<B, E>,
) -> bool {
    exists|bodies_at: Map<u64, B>| #[trigger]
        all_explained(cache.entries, cache.version, bodies_at, f)
}

/// Every entry is explained by `bodies_at`.
pub open spec fn all_explained<B, E>(
    entries: Map<u64, EntryModel<B>>,
    version: u64,
    bodies_at: Map<u64, B>,
    f: spec_fn(Call<B>) -> Result<B, E>,
) -> bool {
    forall|k: u64|
        #![trigger entries[k]]
        entries.contains_key(k) ==> explained(entries[k], version, bodies_at, f)
}

/// Cloning gives back an equal body.
pub open spec fn faithful_clone<B: Clone>() -> bool {
    forall|a: B, b: B| #[trigger] cloned(a, b) ==> a == b
}

/// A cache that remembers nothing can be trusted.
pub proof fn law_empty_cache_is_trustworthy<B, E>(
    cache: CacheModel<B>,
    f: spec_fn(Call<B>) -> Result<B, E>,
)
    requires
        cache.entries == Map::<u64, EntryModel<B>>::empty(),
    ensures
        trustworthy(cache, f),
{
    assert(all_explained(cache.entries, cache.version, Map::empty(), f));
}

/// Cached replay gives the same result as replaying everything. With a backend
/// that always answers as `f` says and cloning keeping bodies as they are, a pass
/// from a trustworthy cache has the outcome `f` makes of the history, and leaves a
/// trustworthy cache. Operations count as equal when their numbers do, so where a
/// zero changed its sign since the last pass, `f` has to answer alike.
pub proof fn law_cache_gives_the_same_result<B: Clone, E>(
    cache: CacheModel<B>,
    doc: DocumentModel,
    before: Seq<Step<B, E>>,
    after: Seq<Step<B, E>>,
    outcome: Outcome<B, E>,
    next: CacheModel<B>,
    copies: Seq<B>,
    f: spec_fn(Call<B>) -> Result<B, E>,
)
    requires
        crate::cache::incremental(cache, doc, before, after, outcome, next, copies),
        distinct_ids(doc.active()),
        follows(before, after, f),
        respects_equality(cache, doc.active(), f),
        faithful_clone::<B>(),
        trustworthy(cache, f),
        cache.version + doc.active_len() <= u64::MAX,
    ensures
        outcome == ideal(doc.active(), f).outcome(),
        trustworthy(next, f),
{
    let features = doc.active();
    let answers = crate::regen::answers_since(before, after);
    let out = crate::cache::pass(cache, features, answers, copies);
    lemma_answers_follow(before, after, out.replay.calls, f);
    assert forall|i: int| 0 <= i < copies.len() implies #[trigger] copies[i] == out.sources[i] by {
        assert(cloned(out.sources[i], copies[i]));
    }
    let first = choose|bodies_at: Map<u64, B>| #[trigger]
        all_explained(cache.entries, cache.version, bodies_at, f);
    let bodies_at = lemma_pass_is_ideal(cache, features, features.len(), answers, copies, f, first);
    assert(features.take(features.len() as int) =~= features);
    assert(all_explained(next.entries, next.version, bodies_at, f)) by {
        assert forall|k: u64|
            #![trigger next.entries[k]]
            next.entries.contains_key(k) implies explained(
            next.entries[k],
            next.version,
            bodies_at,
            f,
        ) by {
            assert(next.entries[k] == out.entries[k]);
        }
    }
}

/// What is remembered of a feature not yet visited is what the cache held.
proof fn lemma_unvisited_entries<B, E>(
    cache: CacheModel<B>,
    features: Seq<FeatureModel>,
    answers: Seq<Result<B, E>>,
    copies: Seq<B>,
    k: u64,
)
    requires
        !crate::cache::listed(features, k),
    ensures
        ({
            let entries = crate::cache::pass(cache, features, answers, copies).entries;
            &&& entries.contains_key(k) == cache.entries.contains_key(k)
            &&& entries[k] == cache.entries[k]
        }),
    decreases features.len(),
{
    if features.len() > 0 {
        let n = features.len() - 1;
        assert(features[n].id.0 != k);
        assert(!crate::cache::listed(features.drop_last(), k)) by {
            assert forall|i: int| 0 <= i < n implies (#[trigger] features.drop_last()[i]).id.0
                != k by {
                assert(features[i].id.0 != k);
            }
        }
        lemma_unvisited_entries(cache, features.drop_last(), answers, copies, k);
    }
}

/// What holds part-way through a pass.
spec fn in_step<B, E>(
    state: Pass<B, E>,
    done: Seq<FeatureModel>,
    bodies_at: Map<u64, B>,
    f: spec_fn(Call<B>) -> Result<B, E>,
) -> bool {
    &&& state.replay.outcome() == ideal(done, f).outcome()
    &&& state.version <= u64::MAX
    &&& all_explained(state.entries, state.version as u64, bodies_at, f)
    &&& forall|k: u64| #[trigger]
        state.replay.bodies.contains_key(k) ==> {
            &&& state.entries.contains_key(k)
            &&& state.entries[k].body == state.replay.bodies[k]
            &&& crate::cache::listed(done, k)
        }
}

proof fn lemma_pass_is_ideal<B, E>(
    cache: CacheModel<B>,
    features: Seq<FeatureModel>,
    k: nat,
    answers: Seq<Result<B, E>>,
    copies: Seq<B>,
    f: spec_fn(Call<B>) -> Result<B, E>,
    first: Map<u64, B>,
) -> (bodies_at: Map<u64, B>)
    requires
        k <= features.len(),
        distinct_ids(features),
        respects_equality(cache, features, f),
        all_explained(cache.entries, cache.version, first, f),
        cache.version + features.len() <= u64::MAX,
        ({
            let out = crate::cache::pass(cache, features, answers, copies);
            &&& answers.len() == out.replay.calls.len()
            &&& forall|i: int|
                0 <= i < out.replay.calls.len() ==> #[trigger] answers[i] == f(out.replay.calls[i])
            &&& copies.len() == out.sources.len()
            &&& forall|i: int| 0 <= i < copies.len() ==> #[trigger] copies[i] == out.sources[i]
        }),
    ensures
        in_step(
            crate::cache::pass(cache, features.take(k as int), answers, copies),
            features.take(k as int),
            bodies_at,
            f,
        ),
        crate::cache::pass(cache, features.take(k as int), answers, copies).version
            <= cache.version + k,
    decreases k,
{
    if k == 0 {
        assert(features.take(0) =~= seq![]);
        first
    } else {
        let earlier = lemma_pass_is_ideal(
            cache,
            features,
            (k - 1) as nat,
            answers,
            copies,
            f,
            first,
        );
        let part = features.take(k as int);
        assert(part.drop_last() =~= features.take(k - 1));
        let feature = part.last();
        let state = crate::cache::pass(cache, part.drop_last(), answers, copies);
        let now = crate::cache::pass(cache, part, answers, copies);
        let out = crate::cache::pass(cache, features, answers, copies);
        lemma_pass_keeps_what_was_done(cache, features, k, answers, copies);
        if feature.suppressed {
            assert(in_step(now, part, earlier, f)) by {
                lemma_in_step_grows(state, now, part, earlier, f);
            }
            earlier
        } else if state.reusable(feature) {
            let n = state.sources.len() as int;
            let entry = state.entries[feature.id.0];
            assert(now.sources[n] == entry.body);
            assert(copies[n] == entry.body);
            assert(part.drop_last().push(feature) =~= part);
            assert(distinct_ids(part)) by {
                assert forall|i: int, j: int|
                    #![trigger part[i], part[j]]
                    0 <= i < j < part.len() implies part[i].id != part[j].id by {
                    assert(part[i] == features[i] && part[j] == features[j]);
                }
            }
            lemma_listed_grows(part.drop_last(), feature);
            lemma_unvisited_entries(cache, part.drop_last(), answers, copies, feature.id.0);
            assert(features[k - 1] == feature);
            lemma_reuse_is_sound(state, part.drop_last(), feature, earlier, f);
            lemma_reused_in_step(state, part.drop_last(), feature, earlier, f);
            assert(part.drop_last().push(feature) =~= part);
            earlier
        } else {
            match crate::regen::plan(feature.kind, state.replay.bodies) {
                Err(_) => {
                    lemma_dropped_in_step(state, now, part, earlier, f);
                    earlier
                },
                Ok(call) => {
                    let c = state.replay.calls.len() as int;
                    assert(now.replay.calls[c] == call);
                    assert(out.replay.calls[c] == call);
                    match answers[c] {
                        Ok(body) => {
                            let n = state.sources.len() as int;
                            assert(now.sources[n] == body);
                            assert(copies[n] == body);
                            let asked = Pass { replay: state.replay.asked(call), ..state };
                            let later = earlier.insert((state.version + 1) as u64, body);
                            lemma_rebuilt_in_step(
                                state,
                                part.drop_last(),
                                feature,
                                call,
                                body,
                                earlier,
                                f,
                            );
                            assert(part.drop_last().push(feature) =~= part);
                            later
                        },
                        Err(_) => {
                            lemma_dropped_in_step(state, now, part, earlier, f);
                            earlier
                        },
                    }
                },
            }
        }
    }
}

/// A feature that changes nothing keeps the pass in step.
proof fn lemma_in_step_grows<B, E>(
    state: Pass<B, E>,
    now: Pass<B, E>,
    part: Seq<FeatureModel>,
    bodies_at: Map<u64, B>,
    f: spec_fn(Call<B>) -> Result<B, E>,
)
    requires
        part.len() > 0,
        in_step(state, part.drop_last(), bodies_at, f),
        part.last().suppressed,
        now == state,
    ensures
        in_step(now, part, bodies_at, f),
{
    assert(part.drop_last().push(part.last()) =~= part);
    lemma_listed_grows(part.drop_last(), part.last());
}

proof fn lemma_listed_grows(done: Seq<FeatureModel>, feature: FeatureModel)
    ensures
        forall|k: u64|
            crate::cache::listed(done, k) ==> #[trigger] crate::cache::listed(
                done.push(feature),
                k,
            ),
        crate::cache::listed(done.push(feature), feature.id.0),
        distinct_ids(done.push(feature)) ==> !crate::cache::listed(done, feature.id.0),
{
    let part = done.push(feature);
    assert forall|k: u64| crate::cache::listed(done, k) implies #[trigger] crate::cache::listed(
        part,
        k,
    ) by {
        let i = choose|i: int| 0 <= i < done.len() && (#[trigger] done[i]).id.0 == k;
        assert(part[i].id.0 == k);
    }
    assert(part[done.len() as int].id.0 == feature.id.0);
    if distinct_ids(part) && crate::cache::listed(done, feature.id.0) {
        let i = choose|i: int| 0 <= i < done.len() && (#[trigger] done[i]).id.0 == feature.id.0;
        assert(part[i].id != part[done.len() as int].id);
    }
}

/// A failed feature keeps the pass in step.
proof fn lemma_dropped_in_step<B, E>(
    state: Pass<B, E>,
    now: Pass<B, E>,
    part: Seq<FeatureModel>,
    bodies_at: Map<u64, B>,
    f: spec_fn(Call<B>) -> Result<B, E>,
)
    requires
        part.len() > 0,
        distinct_ids(part),
        in_step(state, part.drop_last(), bodies_at, f),
        !part.last().suppressed,
        match crate::regen::plan(part.last().kind, state.replay.bodies) {
            Err(fault) => now == state.dropped(part.last(), fault.of(part.last().id)),
            Ok(call) => f(call) matches Err(source) && now == (Pass {
                replay: state.replay.asked(call),
                ..state
            }).dropped(
                part.last(),
                RegenError::Backend { feature: part.last().id, source },
            ),
        },
    ensures
        in_step(now, part, bodies_at, f),
{
    assert(part.drop_last().push(part.last()) =~= part);
    lemma_listed_grows(part.drop_last(), part.last());
    let id = part.last().id.0;
    assert(!state.replay.bodies.contains_key(id));
    assert forall|k: u64|
        #![trigger now.entries[k]]
        now.entries.contains_key(k) implies explained(
        now.entries[k],
        now.version as u64,
        bodies_at,
        f,
    ) by {
        assert(now.entries[k] == state.entries[k]);
    }
    assert forall|k: u64| #[trigger] now.replay.bodies.contains_key(k) implies {
        &&& now.entries.contains_key(k)
        &&& now.entries[k].body == now.replay.bodies[k]
        &&& crate::cache::listed(part, k)
    } by {
        assert(state.replay.bodies.contains_key(k));
    }
}

/// A body that can stand is the one the backend would build now.
proof fn lemma_reuse_is_sound<B, E>(
    state: Pass<B, E>,
    done: Seq<FeatureModel>,
    feature: FeatureModel,
    bodies_at: Map<u64, B>,
    f: spec_fn(Call<B>) -> Result<B, E>,
)
    requires
        answered_alike(state.entries[feature.id.0].kind, feature.kind, f),
        in_step(state, done, bodies_at, f),
        state.reusable(feature),
    ensures
        crate::regen::plan(feature.kind, state.replay.bodies) matches Ok(call) && f(call) == Ok::<
            B,
            E,
        >(state.entries[feature.id.0].body),
{
    let entry = state.entries[feature.id.0];
    let inputs = entry.kind.inputs();
    let bodies = state.replay.bodies;
    assert(explained(entry, state.version as u64, bodies_at, f));
    let was = choose|b: Map<u64, B>| #[trigger] built_from(entry, b, bodies_at, f);
    lemma_equal_kinds_plan_alike(entry.kind, feature.kind, bodies);
    lemma_first_missing(bodies, inputs, 0);
    assert forall|i: int| 0 <= i < inputs.len() implies was.contains_key((#[trigger] inputs[i]).0)
        && bodies.contains_key(inputs[i].0) && was[inputs[i].0] == bodies[inputs[i].0] by {
        let x = inputs[i].0;
        assert(bodies[x] == state.entries[x].body);
        assert(entry.input_versions[i] == state.entries[x].version);
        assert(explained(state.entries[x], state.version as u64, bodies_at, f));
    }
    lemma_plan_is_local(entry.kind, was, bodies);
}

proof fn lemma_reused_in_step<B, E>(
    state: Pass<B, E>,
    done: Seq<FeatureModel>,
    feature: FeatureModel,
    bodies_at: Map<u64, B>,
    f: spec_fn(Call<B>) -> Result<B, E>,
)
    requires
        in_step(state, done, bodies_at, f),
        state.reusable(feature),
        !feature.suppressed,
        crate::regen::plan(feature.kind, state.replay.bodies) matches Ok(call) && f(call) == Ok::<
            B,
            E,
        >(state.entries[feature.id.0].body),
    ensures
        in_step(
            state.reused(feature, state.entries[feature.id.0].body),
            done.push(feature),
            bodies_at,
            f,
        ),
{
    let now = state.reused(feature, state.entries[feature.id.0].body);
    let part = done.push(feature);
    assert(part.drop_last() =~= done);
    lemma_listed_grows(done, feature);
    assert forall|k: u64| #[trigger] now.replay.bodies.contains_key(k) implies {
        &&& now.entries.contains_key(k)
        &&& now.entries[k].body == now.replay.bodies[k]
        &&& crate::cache::listed(part, k)
    } by {
        if k != feature.id.0 {
            assert(state.replay.bodies.contains_key(k));
        }
    }
}

proof fn lemma_rebuilt_in_step<B, E>(
    state: Pass<B, E>,
    done: Seq<FeatureModel>,
    feature: FeatureModel,
    call: Call<B>,
    body: B,
    bodies_at: Map<u64, B>,
    f: spec_fn(Call<B>) -> Result<B, E>,
)
    requires
        in_step(state, done, bodies_at, f),
        distinct_ids(done.push(feature)),
        !feature.suppressed,
        crate::regen::plan(feature.kind, state.replay.bodies) == Ok::<Call<B>, Fault>(call),
        f(call) == Ok::<B, E>(body),
        state.version < u64::MAX,
    ensures
        in_step(
            (Pass { replay: state.replay.asked(call), ..state }).rebuilt(feature, body, body),
            done.push(feature),
            bodies_at.insert((state.version + 1) as u64, body),
            f,
        ),
{
    let now = (Pass { replay: state.replay.asked(call), ..state }).rebuilt(feature, body, body);
    let part = done.push(feature);
    let later = bodies_at.insert((state.version + 1) as u64, body);
    assert(part.drop_last() =~= done);
    lemma_listed_grows(done, feature);
    lemma_plan_needs_inputs(feature.kind, state.replay.bodies);
    let id = feature.id.0;
    let inputs = feature.kind.inputs();
    assert forall|k: u64|
        #![trigger now.entries[k]]
        now.entries.contains_key(k) implies explained(
        now.entries[k],
        now.version as u64,
        later,
        f,
    ) by {
        if k == id {
            let entry = now.entries[k];
            assert forall|i: int| 0 <= i < inputs.len() implies {
                &&& 1 <= #[trigger] entry.input_versions[i] <= state.version
                &&& state.replay.bodies[inputs[i].0] == later[entry.input_versions[i]]
            } by {
                let x = inputs[i].0;
                assert(state.replay.bodies.contains_key(x));
                assert(state.replay.bodies[x] == state.entries[x].body);
                assert(explained(state.entries[x], state.version as u64, bodies_at, f));
            }
            assert(built_from(entry, state.replay.bodies, later, f)) by {
                assert forall|i: int| 0 <= i < inputs.len() implies state.replay.bodies.contains_key(
                    (#[trigger] inputs[i]).0,
                ) && state.replay.bodies[inputs[i].0] == later[entry.input_versions[i]] by {
                    assert(entry.input_versions[i] >= 1);
                }
            }
        } else {
            let entry = state.entries[k];
            assert(now.entries[k] == entry);
            assert(explained(entry, state.version as u64, bodies_at, f));
            let was = choose|b: Map<u64, B>| #[trigger] built_from(entry, b, bodies_at, f);
            assert(built_from(entry, was, later, f)) by {
                let ins = entry.kind.inputs();
                assert forall|i: int| 0 <= i < ins.len() implies was.contains_key(
                    (#[trigger] ins[i]).0,
                ) && was[ins[i].0] == later[entry.input_versions[i]] by {
                    assert(1 <= entry.input_versions[i] <= state.version);
                }
            }
        }
    }
    assert forall|k: u64| #[trigger] now.replay.bodies.contains_key(k) implies {
        &&& now.entries.contains_key(k)
        &&& now.entries[k].body == now.replay.bodies[k]
        &&& crate::cache::listed(part, k)
    } by {
        if k != id {
            assert(state.replay.bodies.contains_key(k));
        }
    }
}

/// What a pass asked and cloned early on stays asked and cloned.
proof fn lemma_pass_keeps_what_was_done<B, E>(
    cache: CacheModel<B>,
    features: Seq<FeatureModel>,
    k: nat,
    answers: Seq<Result<B, E>>,
    copies: Seq<B>,
)
    requires
        k <= features.len(),
    ensures
        ({
            let some = crate::cache::pass(cache, features.take(k as int), answers, copies);
            let all = crate::cache::pass(cache, features, answers, copies);
            &&& some.replay.calls.len() <= all.replay.calls.len()
            &&& forall|i: int|
                0 <= i < some.replay.calls.len() ==> #[trigger] some.replay.calls[i]
                    == all.replay.calls[i]
            &&& some.sources.len() <= all.sources.len()
            &&& forall|i: int|
                0 <= i < some.sources.len() ==> #[trigger] some.sources[i] == all.sources[i]
        }),
    decreases features.len() - k,
{
    if k < features.len() {
        let front = features.drop_last();
        assert(front.take(k as int) =~= features.take(k as int));
        lemma_pass_keeps_what_was_done(cache, front, k, answers, copies);
    } else {
        assert(features.take(k as int) =~= features);
    }
}

/// No operation remembered has a negative zero.
pub open spec fn unsigned_cache<B>(cache: CacheModel<B>) -> bool {
    forall|k: u64|
        #![trigger cache.entries[k]]
        cache.entries.contains_key(k) ==> cache.entries[k].kind.unsigned_zero()
}

/// No feature of the list has a negative zero.
pub open spec fn unsigned_features(features: Seq<FeatureModel>) -> bool {
    forall|i: int| 0 <= i < features.len() ==> (#[trigger] features[i]).kind.unsigned_zero()
}

/// Without negative zeros nothing more is asked of the backend than that it answers
/// as `f` says: a pass from a trustworthy cache has the outcome `f` makes of the
/// history, and leaves a trustworthy cache without negative zeros.
pub proof fn law_without_negative_zeros_the_result_is_the_same<B: Clone, E>(
    cache: CacheModel<B>,
    doc: DocumentModel,
    before: Seq<Step<B, E>>,
    after: Seq<Step<B, E>>,
    outcome: Outcome<B, E>,
    next: CacheModel<B>,
    copies: Seq<B>,
    f: spec_fn(Call<B>) -> Result<B, E>,
)
    requires
        crate::cache::incremental(cache, doc, before, after, outcome, next, copies),
        distinct_ids(doc.active()),
        follows(before, after, f),
        unsigned_cache(cache),
        unsigned_features(doc.active()),
        faithful_clone::<B>(),
        trustworthy(cache, f),
        cache.version + doc.active_len() <= u64::MAX,
    ensures
        outcome == ideal(doc.active(), f).outcome(),
        trustworthy(next, f),
        unsigned_cache(next),
{
    let features = doc.active();
    assert forall|i: int|
        #![trigger features[i]]
        0 <= i < features.len() && cache.entries.contains_key(features[i].id.0)
            && cache.entries[features[i].id.0].kind.equals(
            features[i].kind,
        ) implies answered_alike(
        cache.entries[features[i].id.0].kind,
        features[i].kind,
        f,
    ) by {
        let entry = cache.entries[features[i].id.0];
        assert(entry.kind.unsigned_zero());
        crate::zeros::law_equal_operations_are_the_same(entry.kind, features[i].kind);
    }
    law_cache_gives_the_same_result(cache, doc, before, after, outcome, next, copies, f);
    let answers = crate::regen::answers_since(before, after);
    lemma_pass_stays_unsigned(cache, features, answers, copies);
    let out = crate::cache::pass(cache, features, answers, copies);
    assert forall|k: u64|
        #![trigger next.entries[k]]
        next.entries.contains_key(k) implies next.entries[k].kind.unsigned_zero() by {
        assert(next.entries[k] == out.entries[k]);
    }
}

/// A pass over features without negative zeros remembers none.
proof fn lemma_pass_stays_unsigned<B, E>(
    cache: CacheModel<B>,
    features: Seq<FeatureModel>,
    answers: Seq<Result<B, E>>,
    copies: Seq<B>,
)
    requires
        unsigned_cache(cache),
        unsigned_features(features),
    ensures
        ({
            let entries = crate::cache::pass(cache, features, answers, copies).entries;
            forall|k: u64|
                #![trigger entries[k]]
                entries.contains_key(k) ==> entries[k].kind.unsigned_zero()
        }),
    decreases features.len(),
{
    if features.len() > 0 {
        let front = features.drop_last();
        assert(unsigned_features(front)) by {
            assert forall|i: int| 0 <= i < front.len() implies (
            #[trigger] front[i]).kind.unsigned_zero() by {
                assert(features[i].kind.unsigned_zero());
            }
        }
        lemma_pass_stays_unsigned(cache, front, answers, copies);
        let last = features[features.len() - 1];
        let was = crate::cache::pass(cache, front, answers, copies).entries;
        let now = crate::cache::pass(cache, features, answers, copies).entries;
        assert(last.kind.unsigned_zero());
        assert forall|k: u64|
            #![trigger now[k]]
            now.contains_key(k) implies now[k].kind.unsigned_zero() by {
            if k != last.id.0 {
                assert(now[k] == was[k]);
            } else {
                assert(now[k] == was[k] || now[k].kind == last.kind);
            }
        }
    }
}

/// One cached replay: the document, what the backend was asked, the outcome, the
/// cache it left and the clones made.
pub struct Rebuild<B, E> {
    pub doc: DocumentModel,
    pub before: Seq<Step<B, E>>,
    pub after: Seq<Step<B, E>>,
    pub outcome: Outcome<B, E>,
    pub next: CacheModel<B>,
    pub copies: Seq<B>,
}

/// The cache the rebuilds leave, where the first begins with an empty one.
pub open spec fn left_by<B, E>(runs: Seq<Rebuild<B, E>>) -> CacheModel<B> {
    if runs.len() == 0 {
        CacheModel { entries: Map::empty(), version: 0 }
    } else {
        runs.last().next
    }
}

/// The rebuilds follow one another, each from the cache the one before it left, on
/// documents with distinct ids and without negative zeros, and the backend always
/// answered as `f` says.
pub open spec fn in_a_row<B: Clone, E>(
    runs: Seq<Rebuild<B, E>>,
    f: spec_fn(Call<B>) -> Result<B, E>,
) -> bool
    decreases runs.len(),
{
    runs.len() == 0 || {
        let r = runs.last();
        let cache = left_by(runs.drop_last());
        &&& in_a_row(runs.drop_last(), f)
        &&& crate::cache::incremental(
            cache,
            r.doc,
            r.before,
            r.after,
            r.outcome,
            r.next,
            r.copies,
        )
        &&& distinct_ids(r.doc.active())
        &&& unsigned_features(r.doc.active())
        &&& follows(r.before, r.after, f)
        &&& cache.version + r.doc.active_len() <= u64::MAX
    }
}

/// No stale body is ever returned: after any rebuilds of any documents, the first
/// from an empty cache, a cached replay has the outcome that replaying the whole
/// document has, whose questions moved the backend's log from `before` to `after`.
pub proof fn law_no_stale_body_is_returned<B: Clone, E>(
    runs: Seq<Rebuild<B, E>>,
    before: Seq<Step<B, E>>,
    after: Seq<Step<B, E>>,
    f: spec_fn(Call<B>) -> Result<B, E>,
)
    requires
        runs.len() > 0,
        in_a_row(runs, f),
        faithful_clone::<B>(),
        follows(before, after, f),
        crate::regen::asked_in_turn(
            before,
            after,
            crate::regen::replay(
                runs.last().doc.active(),
                crate::regen::answers_since(before, after),
            ).calls,
        ),
    ensures
        runs.last().outcome == crate::regen::replay(
            runs.last().doc.active(),
            crate::regen::answers_since(before, after),
        ).outcome(),
{
    lemma_rebuilds_are_ideal(runs, f);
    law_replay_follows_the_backend(runs.last().doc.active(), before, after, f);
}

/// Rebuilds in a row have the outcomes `f` makes of the histories.
proof fn lemma_rebuilds_are_ideal<B: Clone, E>(
    runs: Seq<Rebuild<B, E>>,
    f: spec_fn(Call<B>) -> Result<B, E>,
)
    requires
        in_a_row(runs, f),
        faithful_clone::<B>(),
    ensures
        trustworthy(left_by(runs), f),
        unsigned_cache(left_by(runs)),
        runs.len() > 0 ==> runs.last().outcome == ideal(runs.last().doc.active(), f).outcome(),
    decreases runs.len(),
{
    if runs.len() == 0 {
        law_empty_cache_is_trustworthy(left_by(runs), f);
    } else {
        let r = runs.last();
        lemma_rebuilds_are_ideal(runs.drop_last(), f);
        law_without_negative_zeros_the_result_is_the_same(
            left_by(runs.drop_last()),
            r.doc,
            r.before,
            r.after,
            r.outcome,
            r.next,
            r.copies,
            f,
        );
    }
}

} // verus!
