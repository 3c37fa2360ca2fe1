//! Replaying only what changed.
//!
//! A [`RegenCache`] remembers each feature's body, the operation it was built by
//! and a version that grows with every rebuild. A feature is built again only if
//! its operation changed or one of its inputs was built again, which shows as a
//! version that differs.

use crate::backend::{GeometryBackend, Step};
use crate::document::{Document, DocumentModel};
use crate::features::{Feature, FeatureId, FeatureKind, FeatureModel, KindModel};
use crate::regen::{Outcome, RegenError, Regeneration, Replay};
use std::collections::HashMap;
use vstd::prelude::*;

verus! {

broadcast use vstd::std_specs::hash::group_hash_axioms;

/// What was built for a feature, and from what.
struct CacheEntry<B> {
    kind: FeatureKind,
    input_versions: Vec<u64>,
    version: u64,
    body: B,
}

/// What a cache entry holds: the operation, the version each input had, the
/// entry's own version, and the body.
#[verifier::ext_equal]
pub struct EntryModel<B> {
    pub kind: KindModel,
    pub input_versions: Seq<u64>,
    pub version: u64,
    pub body: B,
}

impl<B> CacheEntry<B> {
    spec fn model(self) -> EntryModel<B> {
        EntryModel {
            kind: self.kind@,
            input_versions: self.input_versions@,
            version: self.version,
            body: self.body,
        }
    }
}

spec fn entry_models<B>(entries: Map<u64, CacheEntry<B>>) -> Map<u64, EntryModel<B>> {
    Map::new(|k: u64| entries.contains_key(k), |k: u64| entries[k].model())
}

/// The bodies built by earlier passes.
#[verifier::reject_recursive_types(B)]
pub struct RegenCache<B> {
    entries: HashMap<u64, CacheEntry<B>>,
    next_version: u64,
}

/// What a [`RegenCache`] holds, and the last version handed out.
#[verifier::ext_equal]
pub struct CacheModel<B> {
    pub entries: Map<u64, EntryModel<B>>,
    pub version: u64,
}

impl<B> View for RegenCache<B> {
    type V = CacheModel<B>;

    closed spec fn view(&self) -> CacheModel<B> {
        CacheModel { entries: entry_models(self.entries@), version: self.next_version }
    }
}

/// The version each input has now; zero for one that has no entry.
pub open spec fn versions<B>(entries: Map<u64, EntryModel<B>>, inputs: Seq<FeatureId>) -> Seq<u64> {
    Seq::new(
        inputs.len(),
        |i: int|
            if entries.contains_key(inputs[i].0) {
                entries[inputs[i].0].version
            } else {
                0
            },
    )
}

/// Whether the body remembered for a feature can stand: it was built by an equal
/// operation, from the inputs as they are now, and they are all there.
pub open spec fn stands<B>(
    entries: Map<u64, EntryModel<B>>,
    bodies: Map<u64, B>,
    f: FeatureModel,
) -> bool {
    &&& entries.contains_key(f.id.0)
    &&& entries[f.id.0].kind.equals(f.kind)
    &&& entries[f.id.0].input_versions == versions(entries, f.kind.inputs())
    &&& crate::regen::first_missing(bodies, f.kind.inputs(), 0) is None
}

/// How far a pass has come: the replay so far, the entries, the last version,
/// and the bodies that were cloned, in order.
#[verifier::ext_equal]
pub struct Pass<B, E> {
    pub replay: Replay<B, E>,
    pub entries: Map<u64, EntryModel<B>>,
    pub version: nat,
    pub sources: Seq<B>,
}

impl<B, E> Pass<B, E> {
    /// Nothing done yet.
    pub open spec fn start(cache: CacheModel<B>) -> Pass<B, E> {
        Pass {
            replay: Replay::start(),
            entries: cache.entries,
            version: cache.version as nat,
            sources: seq![],
        }
    }

    /// Whether the feature's remembered body can stand.
    pub open spec fn reusable(self, f: FeatureModel) -> bool {
        stands(self.entries, self.replay.bodies, f)
    }

    /// The remembered body was cloned, and the clone stands for the feature.
    pub open spec fn reused(self, f: FeatureModel, copy: B) -> Pass<B, E> {
        Pass {
            replay: self.replay.built(f, copy),
            sources: self.sources.push(self.entries[f.id.0].body),
            ..self
        }
    }

    /// The feature was built. A clone of its body is remembered under the next
    /// version.
    pub open spec fn rebuilt(self, f: FeatureModel, body: B, copy: B) -> Pass<B, E> {
        Pass {
            replay: self.replay.built(f, body),
            entries: self.entries.insert(
                f.id.0,
                EntryModel {
                    kind: f.kind,
                    input_versions: versions(self.entries, f.kind.inputs()),
                    version: (self.version + 1) as u64,
                    body: copy,
                },
            ),
            version: self.version + 1,
            sources: self.sources.push(body),
        }
    }

    /// The feature failed. What was remembered of it is forgotten, so that its
    /// dependents see the change in the next pass.
    pub open spec fn dropped(self, f: FeatureModel, error: RegenError<E>) -> Pass<B, E> {
        Pass {
            replay: self.replay.failed(error),
            entries: self.entries.remove(f.id.0),
            ..self
        }
    }

    /// One feature further, where the backend answers with `results` in turn and
    /// cloning gives `copies` in turn.
    pub open spec fn after(
        self,
        f: FeatureModel,
        results: Seq<Result<B, E>>,
        copies: Seq<B>,
    ) -> Pass<B, E> {
        if f.suppressed {
            self
        } else if self.reusable(f) {
            self.reused(f, copies[self.sources.len() as int])
        } else {
            match crate::regen::plan(f.kind, self.replay.bodies) {
                Err(fault) => self.dropped(f, fault.of(f.id)),
                Ok(call) => {
                    let asked = Pass { replay: self.replay.asked(call), ..self };
                    match results[self.replay.calls.len() as int] {
                        Ok(body) => asked.rebuilt(f, body, copies[self.sources.len() as int]),
                        Err(source) => asked.dropped(
                            f,
                            RegenError::Backend { feature: f.id, source },
                        ),
                    }
                },
            }
        }
    }
}

/// The pass over `features` that begins with `cache`.
pub open spec fn pass<B, E>(
    cache: CacheModel<B>,
    features: Seq<FeatureModel>,
    results: Seq<Result<B, E>>,
    copies: Seq<B>,
) -> Pass<B, E>
    decreases features.len(),
{
    if features.len() == 0 {
        Pass::start(cache)
    } else {
        pass(cache, features.drop_last(), results, copies).after(features.last(), results, copies)
    }
}

/// Whether a feature of the list has the id `k`.
pub open spec fn listed(features: Seq<FeatureModel>, k: u64) -> bool {
    exists|i: int| 0 <= i < features.len() && (#[trigger] features[i]).id.0 == k
}

/// The entries of the features still in the history.
pub open spec fn pruned<B>(
    entries: Map<u64, EntryModel<B>>,
    features: Seq<FeatureModel>,
) -> Map<u64, EntryModel<B>> {
    Map::new(|k: u64| entries.contains_key(k) && listed(features, k), |k: u64| entries[k])
}

/// Each copy is a clone of its source.
pub open spec fn all_cloned<B: Clone>(sources: Seq<B>, copies: Seq<B>) -> bool {
    &&& sources.len() == copies.len()
    &&& forall|i: int| 0 <= i < sources.len() ==> cloned(#[trigger] sources[i], copies[i])
}

/// Whether a cached replay of `doc` may go from `cache` to `next` with the given
/// outcome, moving the backend's log from `before` to `after`, where cloning
/// bodies gave `copies`.
pub open spec fn incremental<B: Clone, E>(
    cache: CacheModel<B>,
    doc: DocumentModel,
    before: Seq<Step<B, E>>,
    after: Seq<Step<B, E>>,
    outcome: Outcome<B, E>,
    next: CacheModel<B>,
    copies: Seq<B>,
) -> bool {
    let out = pass(cache, doc.active(), crate::regen::answers_since(before, after), copies);
    &&& crate::regen::asked_in_turn(before, after, out.replay.calls)
    &&& all_cloned(out.sources, copies)
    &&& outcome == out.replay.outcome()
    &&& next == (CacheModel {
        entries: pruned(out.entries, doc.history.features),
        version: out.version as u64,
    })
}

impl<B> Default for RegenCache<B> {
    fn default() -> (r: RegenCache<B>)
        ensures
            r@ == (CacheModel::<B> { entries: Map::empty(), version: 0 }),
    {
        let r = RegenCache { entries: HashMap::new(), next_version: 0 };
        assert(r@.entries =~= Map::empty());
        r
    }
}

/// Further answers and clones do not change a pass that did not need them.
proof fn lemma_pass_prefix<B, E>(
    cache: CacheModel<B>,
    features: Seq<FeatureModel>,
    short: Seq<Result<B, E>>,
    long: Seq<Result<B, E>>,
    few: Seq<B>,
    many: Seq<B>,
)
    requires
        short.len() <= long.len(),
        few.len() <= many.len(),
        forall|i: int| 0 <= i < short.len() ==> short[i] == long[i],
        forall|i: int| 0 <= i < few.len() ==> few[i] == many[i],
        pass(cache, features, short, few).replay.calls.len() <= short.len(),
        pass(cache, features, short, few).sources.len() <= few.len(),
    ensures
        pass(cache, features, short, few) == pass(cache, features, long, many),
    decreases features.len(),
{
    if features.len() > 0 {
        lemma_pass_prefix(cache, features.drop_last(), short, long, few, many);
    }
}

/// Versions only grow, by at most one per feature.
proof fn lemma_pass_version<B, E>(
    cache: CacheModel<B>,
    features: Seq<FeatureModel>,
    results: Seq<Result<B, E>>,
    copies: Seq<B>,
)
    ensures
        cache.version <= pass(cache, features, results, copies).version <= cache.version
            + features.len(),
    decreases features.len(),
{
    if features.len() > 0 {
        lemma_pass_version(cache, features.drop_last(), results, copies);
    }
}

fn same_versions(a: &Vec<u64>, b: &Vec<u64>) -> (r: bool)
    ensures
        r == (a@ == b@),
{
    if a.len() != b.len() {
        return false;
    }
    let mut i: usize = 0;
    while i < a.len()
        invariant
            i <= a@.len() == b@.len(),
            forall|j: int| 0 <= j < i ==> #[trigger] a@[j] == b@[j],
        decreases a@.len() - i,
    {
        if a[i] != b[i] {
            assert(a@[i as int] != b@[i as int]);
            return false;
        }
        i += 1;
    }
    assert(a@ =~= b@);
    true
}

/// Whether every listed feature has a body.
fn all_built<B>(ids: &Vec<FeatureId>, bodies: &HashMap<u64, B>) -> (r: bool)
    ensures
        r == (crate::regen::first_missing(bodies@, ids@, 0) is None),
{
    let mut i: usize = 0;
    while i < ids.len()
        invariant
            i <= ids@.len(),
            crate::regen::first_missing(bodies@, ids@, 0) == crate::regen::first_missing(
                bodies@,
                ids@,
                i as int,
            ),
        decreases ids@.len() - i,
    {
        if !bodies.contains_key(&ids[i].0) {
            return false;
        }
        i += 1;
    }
    true
}

/// The version each input has now.
fn current_versions<B>(entries: &HashMap<u64, CacheEntry<B>>, inputs: &Vec<FeatureId>) -> (r: Vec<
    u64,
>)
    ensures
        r@ == versions(entry_models(entries@), inputs@),
{
    let mut out: Vec<u64> = Vec::new();
    let mut i: usize = 0;
    while i < inputs.len()
        invariant
            i <= inputs@.len(),
            out@.len() == i,
            forall|j: int|
                0 <= j < i ==> #[trigger] out@[j] == versions(entry_models(entries@), inputs@)[j],
        decreases inputs@.len() - i,
    {
        let version: u64 = match entries.get(&inputs[i].0) {
            Some(entry) => entry.version,
            None => 0,
        };
        out.push(version);
        i += 1;
    }
    out
}

/// Whether the feature's remembered body can stand.
fn can_reuse<B>(
    entries: &HashMap<u64, CacheEntry<B>>,
    feature: &Feature,
    inputs: &Vec<FeatureId>,
    input_versions: &Vec<u64>,
    bodies: &HashMap<u64, B>,
) -> (r: bool)
    requires
        inputs@ == feature@.kind.inputs(),
        input_versions@ == versions(entry_models(entries@), inputs@),
    ensures
        r == stands(entry_models(entries@), bodies@, feature@),
{
    match entries.get(&feature.id.0) {
        None => false,
        Some(entry) => {
            assert(entry_models(entries@)[feature.id.0] == entry.model());
            entry.kind == feature.kind && same_versions(&entry.input_versions, input_versions)
                && all_built(inputs, bodies)
        },
    }
}

impl<B: Clone> RegenCache<B> {
    /// A cache that remembers nothing.
    pub fn new() -> (r: RegenCache<B>)
        ensures
            r@ == (CacheModel::<B> { entries: Map::empty(), version: 0 }),
    {
        RegenCache::default()
    }

    /// Whether there are version numbers left for another replay of the document.
    pub fn has_room(&self, document: &Document) -> (r: bool)
        ensures
            r == (self@.version + document@.active_len() <= u64::MAX),
    {
        let n: usize = document.rollback();
        n as u64 <= u64::MAX - self.next_version
    }

    /// Replay the document's active history, reusing the bodies of features
    /// whose operation and inputs are unchanged. Features deleted from the
    /// history are forgotten; rolled-back ones stay remembered.
    pub fn regenerate<K: GeometryBackend<Body = B>>(
        &mut self,
        document: &Document,
        backend: &mut K,
    ) -> (r: Regeneration<B, K::Error>)
        requires
            crate::regen::replayable(document@.active()),
            old(self)@.version + document@.active_len() <= u64::MAX,
        ensures
            exists|copies: Seq<B>| #[trigger]
                incremental(
                    old(self)@,
                    document@,
                    old(backend).log(),
                    final(backend).log(),
                    r@,
                    final(self)@,
                    copies,
                ),
    {
        let mut bodies: HashMap<u64, B> = HashMap::new();
        let mut visible: Vec<FeatureId> = Vec::new();
        let mut errors: Vec<RegenError<K::Error>> = Vec::new();
        let features = document.active_features();
        let ghost all = document@.active();
        let ghost cache = self@;
        let ghost before = backend.log();
        let ghost mut copies: Seq<B> = seq![];
        let mut i: usize = 0;
        proof {
            assert(all.take(0) =~= seq![]);
            assert(bodies@ =~= Map::empty());
            assert(crate::regen::questions(before.skip(before.len() as int)) =~= seq![]);
            assert(before.take(before.len() as int) =~= before);
        }
        while i < features.len()
            invariant
                all == document@.active(),
                all.len() == document@.active_len(),
                crate::history::models(features@) == all,
                crate::regen::replayable(all),
                cache.version + document@.active_len() <= u64::MAX,
                i <= features@.len(),
                ({
                    let out = pass(
                        cache,
                        all.take(i as int),
                        crate::regen::answers_since(before, backend.log()),
                        copies,
                    );
                    &&& crate::regen::asked_in_turn(before, backend.log(), out.replay.calls)
                    &&& all_cloned(out.sources, copies)
                    &&& bodies@ == out.replay.bodies
                    &&& visible@ == out.replay.visible
                    &&& errors@ == out.replay.errors
                    &&& entry_models(self.entries@) == out.entries
                    &&& self.next_version == out.version
                }),
            decreases features@.len() - i,
        {
            let feature = &features[i];
            let ghost f = all[i as int];
            let ghost so_far = backend.log();
            let ghost done = all.take(i as int);
            let ghost answers = crate::regen::answers_since(before, so_far);
            let ghost state = pass(cache, done, answers, copies);
            proof {
                assert(f == feature@);
                assert(all.take(i + 1).drop_last() =~= done);
                assert(all.take(i + 1).last() == f);
                lemma_pass_version(cache, done, answers, copies);
            }
            if !feature.suppressed {
                let inputs = feature.kind.inputs();
                let input_versions = current_versions(&self.entries, &inputs);
                let reusable = can_reuse(
                    &self.entries,
                    feature,
                    &inputs,
                    &input_versions,
                    &bodies,
                );
                if reusable {
                    let entry = self.entries.get(&feature.id.0).unwrap();
                    let body = entry.body.clone();
                    proof {
                        let many = copies.push(body);
                        lemma_pass_prefix(cache, done, answers, answers, copies, many);
                        assert(many[state.sources.len() as int] == body);
                        assert(state.entries[f.id.0].body == entry.body);
                        assert(cloned(entry.body, body));
                        assert(all_cloned(state.sources.push(entry.body), many));
                        copies = many;
                    }
                    crate::regen::consume_inputs(&mut visible, inputs.as_slice());
                    bodies.insert(feature.id.0, body);
                    visible.push(feature.id);
                } else {
                    let result = crate::regen::eval(
                        backend,
                        feature.id,
                        &feature.kind,
                        &bodies,
                    );
                    let ghost now = crate::regen::answers_since(before, backend.log());
                    proof {
                        lemma_cached_step(cache, done, before, so_far, backend.log(), f, copies);
                    }
                    match result {
                        Ok(body) => {
                            self.next_version = self.next_version + 1;
                            let copy = body.clone();
                            let ghost entries = self.entries@;
                            let entry = CacheEntry {
                                kind: feature.kind.clone(),
                                input_versions,
                                version: self.next_version,
                                body: copy,
                            };
                            self.entries.insert(feature.id.0, entry);
                            proof {
                                let many = copies.push(copy);
                                lemma_pass_prefix(cache, done, now, now, copies, many);
                                assert(many[state.sources.len() as int] == copy);
                                assert(cloned(body, copy));
                                assert(all_cloned(state.sources.push(body), many));
                                assert(entry_models(self.entries@) =~= entry_models(
                                    entries,
                                ).insert(f.id.0, entry.model()));
                                copies = many;
                            }
                            crate::regen::consume_inputs(&mut visible, inputs.as_slice());
                            bodies.insert(feature.id.0, body);
                            visible.push(feature.id);
                        },
                        Err(error) => {
                            let ghost entries = self.entries@;
                            self.entries.remove(&feature.id.0);
                            proof {
                                assert(entry_models(self.entries@) =~= entry_models(
                                    entries,
                                ).remove(f.id.0));
                            }
                            errors.push(error);
                        },
                    }
                }
            }
            i += 1;
        }
        proof {
            assert(all.take(i as int) =~= all);
        }
        self.prune(document.history.features());
        proof {
            assert(incremental(
                cache,
                document@,
                before,
                backend.log(),
                (Outcome { bodies: bodies@, visible: visible@, errors: errors@ }),
                self@,
                copies,
            ));
        }
        Regeneration::of(bodies, visible, errors)
    }

    /// Forget the features that are not in the list.
    fn prune(&mut self, features: &[Feature])
        ensures
            final(self)@ == (CacheModel {
                entries: pruned(old(self)@.entries, crate::history::models(features@)),
                version: old(self)@.version,
            }),
    {
        let mut kept: HashMap<u64, CacheEntry<B>> = HashMap::new();
        let ghost all = self.entries@;
        let ghost list = crate::history::models(features@);
        let mut i: usize = 0;
        while i < features.len()
            invariant
                i <= features@.len(),
                list == crate::history::models(features@),
                self.next_version == old(self)@.version,
                all == old(self).entries@,
                forall|k: u64| #[trigger]
                    kept@.contains_key(k) == (all.contains_key(k) && listed(list.take(i as int), k)),
                forall|k: u64| #[trigger] kept@.contains_key(k) ==> kept@[k] == all[k],
                forall|k: u64|
                    #![trigger self.entries@.contains_key(k)]
                    self.entries@.contains_key(k) == (all.contains_key(k) && !listed(
                        list.take(i as int),
                        k,
                    )),
                forall|k: u64| #[trigger]
                    self.entries@.contains_key(k) ==> self.entries@[k] == all[k],
            decreases features@.len() - i,
        {
            let k: u64 = features[i].id.0;
            proof {
                let (now, next) = (list.take(i as int), list.take(i + 1));
                assert(next =~= now.push(list[i as int]));
                assert forall|x: u64| listed(next, x) == (listed(now, x) || x == k) by {
                    if listed(now, x) {
                        let j = choose|j: int|
                            0 <= j < now.len() && (#[trigger] now[j]).id.0 == x;
                        assert(next[j].id.0 == x);
                    }
                    assert(next[i as int].id.0 == k);
                    if listed(next, x) && x != k {
                        let j = choose|j: int|
                            0 <= j < next.len() && (#[trigger] next[j]).id.0 == x;
                        assert(now[j].id.0 == x);
                    }
                }
            }
            match self.entries.remove(&k) {
                Some(entry) => {
                    kept.insert(k, entry);
                },
                None => {},
            }
            i += 1;
        }
        proof {
            assert(list.take(i as int) =~= list);
        }
        self.entries = kept;
        proof {
            assert(self@.entries =~= pruned(old(self)@.entries, list));
        }
    }
}

/// A log that grew by at most the one step a feature asked for carries the pass
/// one feature further.
proof fn lemma_cached_step<B: Clone, E>(
    cache: CacheModel<B>,
    done: Seq<FeatureModel>,
    before: Seq<Step<B, E>>,
    so_far: Seq<Step<B, E>>,
    now: Seq<Step<B, E>>,
    f: FeatureModel,
    copies: Seq<B>,
)
    requires
        ({
            let out = pass(cache, done, crate::regen::answers_since(before, so_far), copies);
            &&& crate::regen::asked_in_turn(before, so_far, out.replay.calls)
            &&& out.sources.len() == copies.len()
            &&& match crate::regen::plan(f.kind, out.replay.bodies) {
                Err(_) => now == so_far,
                Ok(call) => exists|result: Result<B, E>|
                    now == #[trigger] so_far.push(Step { call, result }),
            }
        }),
    ensures
        ({
            let out = pass(cache, done, crate::regen::answers_since(before, so_far), copies);
            let answers = crate::regen::answers_since(before, now);
            &&& pass(cache, done, answers, copies) == out
            &&& match crate::regen::plan(f.kind, out.replay.bodies) {
                Err(_) => true,
                Ok(call) => {
                    &&& now.len() > 0
                    &&& answers[out.replay.calls.len() as int] == now.last().result
                    &&& crate::regen::asked_in_turn(before, now, out.replay.calls.push(call))
                },
            }
        }),
{
    let short = crate::regen::answers_since(before, so_far);
    let long = crate::regen::answers_since(before, now);
    let out = pass(cache, done, short, copies);
    assert(out.replay.calls.len() == short.len());
    lemma_pass_prefix(cache, done, short, long, copies, copies);
    match crate::regen::plan(f.kind, out.replay.bodies) {
        Err(_) => {},
        Ok(call) => {
            let result = choose|result: Result<B, E>|
                now == #[trigger] so_far.push(Step { call, result });
            let n = before.len() as int;
            assert(now.skip(n) =~= so_far.skip(n).push(Step { call, result }));
            assert(now.take(n) =~= so_far.take(n));
            assert(crate::regen::questions(now.skip(n)) =~= crate::regen::questions(
                so_far.skip(n),
            ).push(call));
        },
    }
}

} // verus!
