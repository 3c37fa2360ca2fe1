//! Replaying a history into bodies.
//!
//! Replay walks the active features in order, skipping suppressed ones. A
//! feature's inputs are the bodies built before it. A feature that fails is
//! recorded and skipped, and the rest goes on without it.
//!
//! A feature that succeeds consumes its inputs: they stop being visible on their
//! own and its body takes their place. What is left at the end is what a
//! viewport shows.

use crate::backend::{Call, GeometryBackend, Step};
use crate::document::Document;
use crate::features::{FeatureId, FeatureKind, FeatureModel, KindModel, PathModel, SweepPath};
use std::collections::HashMap;
use vstd::prelude::*;

verus! {

broadcast use vstd::std_specs::hash::group_hash_axioms;

/// A feature's failure.
#[derive(Clone, PartialEq, Eq, Debug)]
pub enum RegenError<E> {
    /// The backend refused the operation.
    Backend { feature: FeatureId, source: E },
    /// An input was not there: it failed, or is suppressed or rolled back.
    MissingInput { feature: FeatureId, input: FeatureId },
    /// The feature itself makes no sense, such as a sketch without a closed
    /// loop.
    Invalid { feature: FeatureId, reason: &'static str },
}

impl<E> RegenError<E> {
    /// The feature that failed.
    pub open spec fn culprit(self) -> FeatureId {
        match self {
            RegenError::Backend { feature, .. } => feature,
            RegenError::MissingInput { feature, .. } => feature,
            RegenError::Invalid { feature, .. } => feature,
        }
    }

    /// The feature that failed.
    pub fn feature(&self) -> (r: FeatureId)
        ensures
            r == self.culprit(),
    {
        match self {
            RegenError::Backend { feature, .. } => *feature,
            RegenError::MissingInput { feature, .. } => *feature,
            RegenError::Invalid { feature, .. } => *feature,
        }
    }
}

/// Why a feature asks nothing of the backend.
pub enum Fault {
    Missing(FeatureId),
    Invalid(&'static str),
}

impl Fault {
    /// The fault of a feature, as its failure.
    pub open spec fn of<E>(self, feature: FeatureId) -> RegenError<E> {
        match self {
            Fault::Missing(input) => RegenError::MissingInput { feature, input },
            Fault::Invalid(reason) => RegenError::Invalid { feature, reason },
        }
    }
}

/// The body an input stands for.
pub open spec fn input<B>(bodies: Map<u64, B>, id: FeatureId) -> Result<B, Fault> {
    if bodies.contains_key(id.0) {
        Ok(bodies[id.0])
    } else {
        Err(Fault::Missing(id))
    }
}

/// The first of `ids` that has no body, from position `from` on.
pub open spec fn first_missing<B>(bodies: Map<u64, B>, ids: Seq<FeatureId>, from: int) -> Option<
    FeatureId,
>
    decreases ids.len() - from,
{
    if from < 0 || from >= ids.len() {
        None
    } else if !bodies.contains_key(ids[from].0) {
        Some(ids[from])
    } else {
        first_missing(bodies, ids, from + 1)
    }
}

/// The call on one body, if the body is there.
pub open spec fn with_body<B>(
    bodies: Map<u64, B>,
    id: FeatureId,
    call: spec_fn(B) -> Call<B>,
) -> Result<Call<B>, Fault> {
    if bodies.contains_key(id.0) {
        Ok(call(bodies[id.0]))
    } else {
        Err(Fault::Missing(id))
    }
}

/// What a feature asks of the backend, given the bodies built before it.
pub open spec fn plan<B>(kind: KindModel, bodies: Map<u64, B>) -> Result<Call<B>, Fault> {
    match kind {
        KindModel::Box { size } => Ok(Call::MakeBox { size }),
        KindModel::Cylinder { radius, height } => Ok(Call::MakeCylinder { radius, height }),
        KindModel::Sphere { radius } => Ok(Call::MakeSphere { radius }),
        KindModel::Sketch { plane, profile } => Ok(Call::Sketch { plane, profile }),
        KindModel::ConstraintSketch { plane, sketch } => if sketch.beziers.len() == 0 {
            match sketch.profile_loop() {
                Some(points) => Ok(Call::SketchLoop { plane, points }),
                None => Err(Fault::Invalid("sketch has no closed loop to build a profile")),
            }
        } else {
            match sketch.profile_elements() {
                Some(elements) => Ok(Call::SketchProfile { plane, elements }),
                None => Err(Fault::Invalid("sketch has no closed loop to build a profile")),
            }
        },
        KindModel::Extrude { source, distance } => with_body(
            bodies,
            source,
            |profile: B| Call::Extrude { profile, distance },
        ),
        KindModel::Translate { source, offset } => with_body(
            bodies,
            source,
            |body: B| Call::Translate { body, offset },
        ),
        KindModel::Boolean { op, target, tool } => match first_missing(
            bodies,
            seq![target, tool],
            0,
        ) {
            Some(id) => Err(Fault::Missing(id)),
            None => Ok(Call::Boolean { op, target: bodies[target.0], tool: bodies[tool.0] }),
        },
        KindModel::FilletAll { source, radius } => with_body(
            bodies,
            source,
            |body: B| Call::FilletAll { body, radius },
        ),
        KindModel::Fillet { source, edges, radius } => with_body(
            bodies,
            source,
            |body: B| Call::FilletEdges { body, anchors: edges, radius },
        ),
        KindModel::PushPull { source, anchor, distance } => with_body(
            bodies,
            source,
            |body: B| Call::PushPull { body, anchor, distance },
        ),
        KindModel::Rotate { source, axis, angle, center } => with_body(
            bodies,
            source,
            |body: B| Call::Rotate { body, center, axis, angle },
        ),
        KindModel::Scale { source, factors, anchor } => with_body(
            bodies,
            source,
            |body: B| Call::Scale { body, factors, anchor },
        ),
        KindModel::Revolve { source, axis, angle } => with_body(
            bodies,
            source,
            |profile: B| Call::Revolve { profile, axis_point: axis.point, angle },
        ),
        KindModel::Mirror { source, origin, normal } => with_body(
            bodies,
            source,
            |body: B| Call::Mirror { body, origin, normal },
        ),
        KindModel::Group { members } => if members.len() == 0 {
            Err(Fault::Invalid("group has no members"))
        } else {
            match first_missing(bodies, members, 0) {
                Some(id) => Err(Fault::Missing(id)),
                None => Ok(
                    Call::Compound {
                        members: Seq::new(members.len(), |i: int| bodies[members[i].0]),
                    },
                ),
            }
        },
        KindModel::Sweep { profile, path } => if !bodies.contains_key(profile.0) {
            Err(Fault::Missing(profile))
        } else {
            match path {
                PathModel::Planar { plane, sketch } => match sketch.path_elements() {
                    Some(elements) => Ok(
                        Call::Sweep { profile: bodies[profile.0], plane, path: elements },
                    ),
                    None => Err(Fault::Invalid("sweep path is not a single open chain")),
                },
            }
        },
    }
}

/// The sketches of a feature meet only points of their own.
pub open spec fn drawable(kind: KindModel) -> bool {
    match kind {
        KindModel::ConstraintSketch { sketch, .. } => if sketch.beziers.len() == 0 {
            sketch.loop_known()
        } else {
            sketch.boundary_known()
        },
        KindModel::Sweep { path: PathModel::Planar { sketch, .. }, .. } => sketch.path_known(),
        _ => true,
    }
}

/// Every feature that is not suppressed can be drawn.
pub open spec fn replayable(features: Seq<FeatureModel>) -> bool {
    forall|i: int|
        0 <= i < features.len() && !(#[trigger] features[i]).suppressed ==> drawable(
            features[i].kind,
        )
}

/// Whether the document can be replayed: every sketch of an active feature that is
/// not suppressed meets only points of its own.
pub fn can_replay(document: &Document) -> (r: bool)
    ensures
        r == replayable(document@.active()),
{
    let features = document.active_features();
    let ghost all = document@.active();
    let mut i: usize = 0;
    while i < features.len()
        invariant
            i <= features@.len(),
            crate::history::models(features@) == all,
            all == document@.active(),
            forall|k: int|
                0 <= k < i && !(#[trigger] all[k]).suppressed ==> drawable(all[k].kind),
        decreases features@.len() - i,
    {
        let f = &features[i];
        assert(crate::history::models(features@)[i as int] == f@);
        let fine = f.suppressed || match &f.kind {
            FeatureKind::ConstraintSketch { sketch, .. } => if sketch.beziers.len() == 0 {
                sketch.is_loop_known()
            } else {
                sketch.is_boundary_known()
            },
            FeatureKind::Sweep { path: SweepPath::Planar { sketch, .. }, .. } => {
                sketch.is_path_known()
            },
            _ => true,
        };
        if !fine {
            assert(!all[i as int].suppressed && !drawable(all[i as int].kind));
            return false;
        }
        i += 1;
    }
    true
}

/// How far a replay has come: what was asked, what was built, what is visible
/// and what failed.
#[verifier::ext_equal]
pub struct Replay<B, E> {
    pub calls: Seq<Call<B>>,
    pub bodies: Map<u64, B>,
    pub visible: Seq<FeatureId>,
    pub errors: Seq<RegenError<E>>,
}

/// The visible features once `inputs` were consumed: each takes out its first
/// occurrence.
pub open spec fn consumed(visible: Seq<FeatureId>, inputs: Seq<FeatureId>) -> Seq<FeatureId>
    decreases inputs.len(),
{
    if inputs.len() == 0 {
        visible
    } else {
        consumed(visible, inputs.drop_last()).remove_value(inputs.last())
    }
}

impl<B, E> Replay<B, E> {
    /// Nothing done yet.
    pub open spec fn start() -> Replay<B, E> {
        Replay { calls: seq![], bodies: Map::empty(), visible: seq![], errors: seq![] }
    }

    /// A feature was built: it takes the place of its inputs.
    pub open spec fn built(self, f: FeatureModel, body: B) -> Replay<B, E> {
        Replay {
            bodies: self.bodies.insert(f.id.0, body),
            visible: consumed(self.visible, f.kind.inputs()).push(f.id),
            ..self
        }
    }

    /// A feature failed.
    pub open spec fn failed(self, error: RegenError<E>) -> Replay<B, E> {
        Replay { errors: self.errors.push(error), ..self }
    }

    /// The backend was asked for something.
    pub open spec fn asked(self, call: Call<B>) -> Replay<B, E> {
        Replay { calls: self.calls.push(call), ..self }
    }

    /// One feature further, where the backend answers with `results` in turn.
    pub open spec fn after(self, f: FeatureModel, results: Seq<Result<B, E>>) -> Replay<B, E> {
        if f.suppressed {
            self
        } else {
            match plan(f.kind, self.bodies) {
                Err(fault) => self.failed(fault.of(f.id)),
                Ok(call) => match results[self.calls.len() as int] {
                    Ok(body) => self.asked(call).built(f, body),
                    Err(source) => self.asked(call).failed(
                        RegenError::Backend { feature: f.id, source },
                    ),
                },
            }
        }
    }
}

/// The replay of `features`, where the backend answers with `results` in turn.
pub open spec fn replay<B, E>(features: Seq<FeatureModel>, results: Seq<Result<B, E>>) -> Replay<
    B,
    E,
>
    decreases features.len(),
{
    if features.len() == 0 {
        Replay::start()
    } else {
        replay(features.drop_last(), results).after(features.last(), results)
    }
}

/// The answers in a stretch of a log.
pub open spec fn answers<B, E>(steps: Seq<Step<B, E>>) -> Seq<Result<B, E>> {
    Seq::new(steps.len(), |i: int| steps[i].result)
}

/// The questions in a stretch of a log.
pub open spec fn questions<B, E>(steps: Seq<Step<B, E>>) -> Seq<Call<B>> {
    Seq::new(steps.len(), |i: int| steps[i].call)
}

/// The outcome of a replay.
#[verifier::reject_recursive_types(B)]
#[verifier::reject_recursive_types(E)]
pub struct Regeneration<B, E> {
    bodies: HashMap<u64, B>,
    visible: Vec<FeatureId>,
    errors: Vec<RegenError<E>>,
}

/// What a [`Regeneration`] holds.
#[verifier::ext_equal]
pub struct Outcome<B, E> {
    pub bodies: Map<u64, B>,
    pub visible: Seq<FeatureId>,
    pub errors: Seq<RegenError<E>>,
}

impl<B, E> Replay<B, E> {
    /// What is left once the replay is over.
    pub open spec fn outcome(self) -> Outcome<B, E> {
        Outcome { bodies: self.bodies, visible: self.visible, errors: self.errors }
    }
}

impl<B, E> View for Regeneration<B, E> {
    type V = Outcome<B, E>;

    closed spec fn view(&self) -> Outcome<B, E> {
        Outcome { bodies: self.bodies@, visible: self.visible@, errors: self.errors@ }
    }
}

/// The bodies of the listed features, or the first one that has none.
fn gather<'a, B>(ids: &Vec<FeatureId>, bodies: &'a HashMap<u64, B>) -> (r: Result<
    Vec<&'a B>,
    FeatureId,
>)
    ensures
        match r {
            Ok(parts) => {
                &&& first_missing(bodies@, ids@, 0) is None
                &&& parts@.len() == ids@.len()
                &&& crate::backend::pointees(parts@) == Seq::new(
                    ids@.len(),
                    |i: int| bodies@[ids@[i].0],
                )
            },
            Err(id) => first_missing(bodies@, ids@, 0) == Some(id),
        },
{
    let mut parts: Vec<&'a B> = Vec::new();
    let mut i: usize = 0;
    while i < ids.len()
        invariant
            i <= ids@.len(),
            parts@.len() == i,
            forall|j: int| 0 <= j < i ==> *(#[trigger] parts@[j]) == bodies@[ids@[j].0],
            first_missing(bodies@, ids@, 0) == first_missing(bodies@, ids@, i as int),
        decreases ids@.len() - i,
    {
        match bodies.get(&ids[i].0) {
            Some(body) => parts.push(body),
            None => return Err(ids[i]),
        }
        i += 1;
    }
    Ok(parts)
}

/// Evaluate one feature with the bodies built before it.
pub(crate) fn eval<K: GeometryBackend>(
    backend: &mut K,
    feature: FeatureId,
    kind: &FeatureKind,
    bodies: &HashMap<u64, K::Body>,
) -> (r: Result<K::Body, RegenError<K::Error>>)
    requires
        drawable(kind@),
    ensures
        match plan(kind@, bodies@) {
            Err(fault) => final(backend).log() == old(backend).log() && r == Err::<K::Body, _>(
                fault.of::<K::Error>(feature),
            ),
            Ok(call) => exists|result: Result<K::Body, K::Error>|
                {
                    &&& final(backend).log() == #[trigger] old(backend).log().push(
                        Step { call, result },
                    )
                    &&& match result {
                        Ok(body) => r == Ok::<_, RegenError<K::Error>>(body),
                        Err(source) => r == Err::<K::Body, _>(
                            RegenError::Backend { feature, source },
                        ),
                    }
                },
        },
{
    let result = match kind {
        FeatureKind::Box { size } => backend.make_box(*size),
        FeatureKind::Cylinder { radius, height } => backend.make_cylinder(*radius, *height),
        FeatureKind::Sphere { radius } => backend.make_sphere(*radius),
        FeatureKind::Sketch { plane, profile } => backend.sketch(*plane, *profile),
        FeatureKind::ConstraintSketch { plane, sketch } => {
            if sketch.beziers.len() == 0 {
                match sketch.profile_loop() {
                    Some(points) => backend.sketch_loop(*plane, points.as_slice()),
                    None => return Err(
                        RegenError::Invalid {
                            feature,
                            reason: "sketch has no closed loop to build a profile",
                        },
                    ),
                }
            } else {
                match sketch.profile_elements() {
                    Some(elements) => backend.sketch_profile(*plane, elements.as_slice()),
                    None => return Err(
                        RegenError::Invalid {
                            feature,
                            reason: "sketch has no closed loop to build a profile",
                        },
                    ),
                }
            }
        },
        FeatureKind::Extrude { source, distance } => match bodies.get(&source.0) {
            Some(profile) => backend.extrude(profile, *distance),
            None => return Err(RegenError::MissingInput { feature, input: *source }),
        },
        FeatureKind::Translate { source, offset } => match bodies.get(&source.0) {
            Some(body) => backend.translate(body, *offset),
            None => return Err(RegenError::MissingInput { feature, input: *source }),
        },
        FeatureKind::Boolean { op, target, tool } => {
            proof {
                reveal_with_fuel(first_missing, 3);
            }
            match (bodies.get(&target.0), bodies.get(&tool.0)) {
                (Some(a), Some(b)) => backend.boolean(*op, a, b),
                (None, _) => return Err(RegenError::MissingInput { feature, input: *target }),
                (_, None) => return Err(RegenError::MissingInput { feature, input: *tool }),
            }
        },
        FeatureKind::FilletAll { source, radius } => match bodies.get(&source.0) {
            Some(body) => backend.fillet_all(body, *radius),
            None => return Err(RegenError::MissingInput { feature, input: *source }),
        },
        FeatureKind::Fillet { source, edges, radius } => match bodies.get(&source.0) {
            Some(body) => backend.fillet_edges(body, edges.as_slice(), *radius),
            None => return Err(RegenError::MissingInput { feature, input: *source }),
        },
        FeatureKind::PushPull { source, anchor, distance } => match bodies.get(&source.0) {
            Some(body) => backend.push_pull(body, *anchor, *distance),
            None => return Err(RegenError::MissingInput { feature, input: *source }),
        },
        FeatureKind::Rotate { source, axis, angle, center } => match bodies.get(&source.0) {
            Some(body) => backend.rotate(body, *center, *axis, *angle),
            None => return Err(RegenError::MissingInput { feature, input: *source }),
        },
        FeatureKind::Scale { source, factors, anchor } => match bodies.get(&source.0) {
            Some(body) => backend.scale(body, *factors, *anchor),
            None => return Err(RegenError::MissingInput { feature, input: *source }),
        },
        FeatureKind::Revolve { source, axis, angle } => match bodies.get(&source.0) {
            Some(profile) => backend.revolve(profile, axis.point, *angle),
            None => return Err(RegenError::MissingInput { feature, input: *source }),
        },
        FeatureKind::Mirror { source, origin, normal } => match bodies.get(&source.0) {
            Some(body) => backend.mirror(body, *origin, *normal),
            None => return Err(RegenError::MissingInput { feature, input: *source }),
        },
        FeatureKind::Group { members } => {
            if members.len() == 0 {
                return Err(RegenError::Invalid { feature, reason: "group has no members" });
            }
            match gather(members, bodies) {
                Ok(parts) => backend.compound(parts.as_slice()),
                Err(input) => return Err(RegenError::MissingInput { feature, input }),
            }
        },
        FeatureKind::Sweep { profile, path } => match bodies.get(&profile.0) {
            None => return Err(RegenError::MissingInput { feature, input: *profile }),
            Some(body) => match path {
                SweepPath::Planar { plane, sketch } => match sketch.path_elements() {
                    Some(elements) => backend.sweep(body, *plane, elements.as_slice()),
                    None => return Err(
                        RegenError::Invalid {
                            feature,
                            reason: "sweep path is not a single open chain",
                        },
                    ),
                },
            },
        },
    };
    match result {
        Ok(body) => Ok(body),
        Err(source) => Err(RegenError::Backend { feature, source }),
    }
}

/// A feature consumes its inputs: they leave the visible list.
pub fn consume_inputs(visible: &mut Vec<FeatureId>, inputs: &[FeatureId])
    ensures
        final(visible)@ == consumed(old(visible)@, inputs@),
{
    let ghost before = visible@;
    let mut i: usize = 0;
    proof {
        assert(inputs@.take(0) =~= seq![]);
    }
    while i < inputs.len()
        invariant
            i <= inputs@.len(),
            visible@ == consumed(before, inputs@.take(i as int)),
        decreases inputs@.len() - i,
    {
        let input = inputs[i];
        proof {
            assert(inputs@.take(i + 1).drop_last() =~= inputs@.take(i as int));
            assert(inputs@.take(i + 1).last() == input);
        }
        remove_first(visible, input);
        i += 1;
    }
    proof {
        assert(inputs@.take(i as int) =~= inputs@);
    }
}

fn remove_first(ids: &mut Vec<FeatureId>, id: FeatureId)
    ensures
        final(ids)@ == old(ids)@.remove_value(id),
{
    let ghost all = ids@;
    proof {
        all.index_of_first_ensures(id);
    }
    let mut i: usize = 0;
    while i < ids.len()
        invariant
            i <= ids@.len(),
            ids@ == all,
            all == old(ids)@,
            forall|j: int| 0 <= j < i ==> #[trigger] ids@[j] != id,
        decreases ids@.len() - i,
    {
        if ids[i] == id {
            proof {
                all.index_of_first_ensures(id);
                assert(all[i as int] == id);
                assert(all.contains(id));
                let f = all.index_of_first(id)->Some_0;
                assert(f == i);
            }
            ids.remove(i);
            return;
        }
        i += 1;
    }
}

/// What holds between a backend's log before and after a pass: it grew by the
/// questions of `out` and the answers that `out` was given.
pub open spec fn asked_in_turn<B, E>(
    before: Seq<Step<B, E>>,
    after: Seq<Step<B, E>>,
    calls: Seq<Call<B>>,
) -> bool {
    &&& before.len() <= after.len()
    &&& after.take(before.len() as int) == before
    &&& questions(after.skip(before.len() as int)) == calls
}

/// The answers a backend gave since its log was `before`.
pub open spec fn answers_since<B, E>(before: Seq<Step<B, E>>, after: Seq<Step<B, E>>) -> Seq<
    Result<B, E>,
> {
    answers(after.skip(before.len() as int))
}

/// Further answers do not change a replay that did not need them.
proof fn lemma_replay_prefix<B, E>(
    features: Seq<FeatureModel>,
    short: Seq<Result<B, E>>,
    long: Seq<Result<B, E>>,
)
    requires
        short.len() <= long.len(),
        forall|i: int| 0 <= i < short.len() ==> short[i] == long[i],
        replay(features, short).calls.len() <= short.len(),
    ensures
        replay(features, short) == replay(features, long),
    decreases features.len(),
{
    if features.len() > 0 {
        lemma_calls_grow(features, short);
        lemma_replay_prefix(features.drop_last(), short, long);
    }
}

proof fn lemma_calls_grow<B, E>(features: Seq<FeatureModel>, results: Seq<Result<B, E>>)
    requires
        features.len() > 0,
    ensures
        replay(features.drop_last(), results).calls.len() <= replay(features, results).calls.len(),
{
}

/// Replay the document's active history.
pub fn regenerate<K: GeometryBackend>(document: &Document, backend: &mut K) -> (r: Regeneration<
    K::Body,
    K::Error,
>)
    requires
        replayable(document@.active()),
    ensures
        ({
            let out = replay(
                document@.active(),
                answers_since(old(backend).log(), final(backend).log()),
            );
            &&& asked_in_turn(old(backend).log(), final(backend).log(), out.calls)
            &&& r@ == out.outcome()
        }),
{
    let mut bodies: HashMap<u64, K::Body> = HashMap::new();
    let mut visible: Vec<FeatureId> = Vec::new();
    let mut errors: Vec<RegenError<K::Error>> = Vec::new();
    let features = document.active_features();
    let ghost all = document@.active();
    let ghost before = backend.log();
    let mut i: usize = 0;
    proof {
        assert(all.take(0) =~= seq![]);
        assert(bodies@ =~= Map::empty());
        assert(questions(before.skip(before.len() as int)) =~= seq![]);
        assert(before.take(before.len() as int) =~= before);
    }
    while i < features.len()
        invariant
            all == document@.active(),
            crate::history::models(features@) == all,
            replayable(all),
            i <= features@.len(),
            ({
                let out = replay(all.take(i as int), answers_since(before, backend.log()));
                &&& asked_in_turn(before, backend.log(), out.calls)
                &&& bodies@ == out.bodies
                &&& visible@ == out.visible
                &&& errors@ == out.errors
            }),
        decreases features@.len() - i,
    {
        let feature = &features[i];
        let ghost f = all[i as int];
        let ghost so_far = backend.log();
        let ghost done = all.take(i as int);
        proof {
            assert(f == feature@);
            assert(all.take(i + 1).drop_last() =~= done);
            assert(all.take(i + 1).last() == f);
        }
        if !feature.suppressed {
            let result = eval(backend, feature.id, &feature.kind, &bodies);
            proof {
                lemma_log_step(done, before, so_far, backend.log(), f);
            }
            match result {
                Ok(body) => {
                    let inputs = feature.kind.inputs();
                    consume_inputs(&mut visible, inputs.as_slice());
                    bodies.insert(feature.id.0, body);
                    visible.push(feature.id);
                },
                Err(error) => errors.push(error),
            }
        }
        i += 1;
    }
    proof {
        assert(all.take(i as int) =~= all);
    }
    Regeneration { bodies, visible, errors }
}

/// A log that grew by at most the one step a feature asked for carries the
/// replay one feature further.
proof fn lemma_log_step<B, E>(
    done: Seq<FeatureModel>,
    before: Seq<Step<B, E>>,
    so_far: Seq<Step<B, E>>,
    now: Seq<Step<B, E>>,
    f: FeatureModel,
)
    requires
        !f.suppressed,
        ({
            let out = replay(done, answers_since(before, so_far));
            &&& asked_in_turn(before, so_far, out.calls)
            &&& match plan(f.kind, out.bodies) {
                Err(_) => now == so_far,
                Ok(call) => exists|result: Result<B, E>|
                    now == #[trigger] so_far.push(Step { call, result }),
            }
        }),
    ensures
        ({
            let out = replay(done, answers_since(before, so_far));
            let next = replay(done, answers_since(before, now)).after(
                f,
                answers_since(before, now),
            );
            &&& asked_in_turn(before, now, next.calls)
            &&& match plan(f.kind, out.bodies) {
                Err(fault) => next == out.failed(fault.of(f.id)),
                Ok(call) => now.len() > 0 && match now.last().result {
                    Ok(body) => next == out.asked(call).built(f, body),
                    Err(source) => next == out.asked(call).failed(
                        RegenError::Backend { feature: f.id, source },
                    ),
                },
            }
        }),
{
    let short = answers_since(before, so_far);
    let long = answers_since(before, now);
    let out = replay(done, short);
    assert(out.calls.len() == short.len());
    lemma_replay_prefix(done, short, long);
    match plan(f.kind, out.bodies) {
        Err(_) => {},
        Ok(call) => {
            let result = choose|result: Result<B, E>|
                now == #[trigger] so_far.push(Step { call, result });
            let n = before.len() as int;
            assert(now.skip(n) =~= so_far.skip(n).push(Step { call, result }));
            assert(now.take(n) =~= so_far.take(n));
            assert(questions(now.skip(n)) =~= questions(so_far.skip(n)).push(call));
            assert(long[short.len() as int] == result);
        },
    }
}

impl<B, E> Regeneration<B, E> {
    /// The outcome made of its parts.
    pub(crate) fn of(
        bodies: HashMap<u64, B>,
        visible: Vec<FeatureId>,
        errors: Vec<RegenError<E>>,
    ) -> (r: Regeneration<B, E>)
        ensures
            r@ == (Outcome { bodies: bodies@, visible: visible@, errors: errors@ }),
    {
        Regeneration { bodies, visible, errors }
    }

    /// The body a feature produced, if it succeeded.
    pub fn body(&self, id: FeatureId) -> (r: Option<&B>)
        ensures
            match r {
                Some(body) => self@.bodies.contains_key(id.0) && *body == self@.bodies[id.0],
                None => !self@.bodies.contains_key(id.0),
            },
    {
        self.bodies.get(&id.0)
    }

    /// The features whose bodies no later feature consumed, in history order.
    pub fn visible(&self) -> (r: &[FeatureId])
        ensures
            r@ == self@.visible,
    {
        self.visible.as_slice()
    }

    /// The visible bodies, in history order.
    pub fn visible_bodies(&self) -> (r: Vec<&B>)
        ensures
            crate::backend::pointees(r@) == visible_of(self@),
    {
        let mut out: Vec<&B> = Vec::new();
        let mut i: usize = 0;
        proof {
            assert(self@.visible.take(0) =~= seq![]);
        }
        while i < self.visible.len()
            invariant
                i <= self.visible@.len(),
                self@.visible == self.visible@,
                self@.bodies == self.bodies@,
                crate::backend::pointees(out@) == bodies_of(
                    self@.visible.take(i as int),
                    self@.bodies,
                ),
            decreases self.visible@.len() - i,
        {
            let ghost before = out@;
            proof {
                assert(self@.visible.take(i + 1).drop_last() =~= self@.visible.take(i as int));
                assert(self@.visible.take(i + 1).last() == self.visible@[i as int]);
            }
            match self.bodies.get(&self.visible[i].0) {
                Some(body) => {
                    out.push(body);
                    proof {
                        assert(crate::backend::pointees(out@) =~= crate::backend::pointees(
                            before,
                        ).push(*body));
                    }
                },
                None => {},
            }
            i += 1;
        }
        proof {
            assert(self@.visible.take(i as int) =~= self@.visible);
        }
        out
    }

    /// Take the visible bodies, in history order. A body can be taken once.
    pub fn into_visible_bodies(self) -> (r: Vec<B>)
        ensures
            r@ == taken(self@.visible, self@.bodies),
    {
        let mut bodies = self.bodies;
        let ghost all = self@;
        let visible = self.visible;
        let mut out: Vec<B> = Vec::new();
        let mut i: usize = 0;
        while i < visible.len()
            invariant
                i <= visible@.len(),
                visible@ == all.visible,
                out@ == taken(all.visible.take(i as int), all.bodies),
                forall|k: u64|
                    #![trigger bodies@.contains_key(k)]
                    {
                        &&& bodies@.contains_key(k) == (all.bodies.contains_key(k)
                            && !all.visible.take(i as int).contains(FeatureId(k)))
                        &&& bodies@.contains_key(k) ==> bodies@[k] == all.bodies[k]
                    },
            decreases visible@.len() - i,
        {
            let id = visible[i];
            proof {
                assert(all.visible.take(i + 1).drop_last() =~= all.visible.take(i as int));
                assert(all.visible.take(i + 1).last() == id);
                let (now, next) = (all.visible.take(i as int), all.visible.take(i + 1));
                assert(next =~= now.push(id));
                assert forall|x: FeatureId| next.contains(x) == (now.contains(x) || x == id) by {
                    if now.contains(x) {
                        let j = now.index_of(x);
                        assert(next[j] == x);
                    }
                    assert(next[i as int] == id);
                    if next.contains(x) && x != id {
                        let j = next.index_of(x);
                        assert(now[j] == x);
                    }
                }
                assert(FeatureId(id.0) == id);
            }
            match bodies.remove(&id.0) {
                Some(body) => out.push(body),
                None => {},
            }
            i += 1;
        }
        proof {
            assert(all.visible.take(i as int) =~= all.visible);
        }
        out
    }

    /// The failures.
    pub fn errors(&self) -> (r: &[RegenError<E>])
        ensures
            r@ == self@.errors,
    {
        self.errors.as_slice()
    }

    /// Whether nothing failed.
    pub fn is_ok(&self) -> (r: bool)
        ensures
            r == (self@.errors.len() == 0),
    {
        self.errors.len() == 0
    }
}

/// The bodies of the listed features, where there are any.
pub open spec fn bodies_of<B>(ids: Seq<FeatureId>, bodies: Map<u64, B>) -> Seq<B>
    decreases ids.len(),
{
    if ids.len() == 0 {
        seq![]
    } else {
        let before = bodies_of(ids.drop_last(), bodies);
        if bodies.contains_key(ids.last().0) {
            before.push(bodies[ids.last().0])
        } else {
            before
        }
    }
}

/// The bodies handed out when each is taken from the map in turn.
pub open spec fn taken<B>(ids: Seq<FeatureId>, bodies: Map<u64, B>) -> Seq<B>
    decreases ids.len(),
{
    if ids.len() == 0 {
        seq![]
    } else {
        let before = taken(ids.drop_last(), bodies);
        if bodies.contains_key(ids.last().0) && !ids.drop_last().contains(ids.last()) {
            before.push(bodies[ids.last().0])
        } else {
            before
        }
    }
}

/// The visible bodies of an outcome.
pub open spec fn visible_of<B, E>(out: Outcome<B, E>) -> Seq<B> {
    bodies_of(out.visible, out.bodies)
}

} // verus!
