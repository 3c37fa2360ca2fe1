//! What a feature asks of the kernel, and what becomes of the answer.

use crate::backend::Call;
use crate::features::{FeatureId, FeatureKind, FeatureModel, KindModel, PathModel, SweepPath};
use crate::regen::{Fault, RegenError};
use vstd::prelude::*;

verus! {

/// The bodies an operation works on, in order.
pub open spec fn bodies_of<B>(call: Call<B>) -> Seq<B> {
    match call {
        Call::Extrude { profile, .. } => seq![profile],
        Call::Revolve { profile, .. } => seq![profile],
        Call::Translate { body, .. } => seq![body],
        Call::Boolean { target, tool, .. } => seq![target, tool],
        Call::FilletAll { body, .. } => seq![body],
        Call::FilletEdges { body, .. } => seq![body],
        Call::PushPull { body, .. } => seq![body],
        Call::Rotate { body, .. } => seq![body],
        Call::Scale { body, .. } => seq![body],
        Call::Mirror { body, .. } => seq![body],
        Call::Compound { members } => members,
        Call::Sweep { profile, .. } => seq![profile],
        _ => seq![],
    }
}

/// The features an operation refers to, in order, as they stand in it.
pub open spec fn references_of(kind: FeatureKind) -> Seq<FeatureId> {
    match kind {
        FeatureKind::Extrude { source, .. } => seq![source],
        FeatureKind::Revolve { source, .. } => seq![source],
        FeatureKind::Translate { source, .. } => seq![source],
        FeatureKind::Boolean { target, tool, .. } => seq![target, tool],
        FeatureKind::FilletAll { source, .. } => seq![source],
        FeatureKind::Fillet { source, .. } => seq![source],
        FeatureKind::PushPull { source, .. } => seq![source],
        FeatureKind::Rotate { source, .. } => seq![source],
        FeatureKind::Scale { source, .. } => seq![source],
        FeatureKind::Mirror { source, .. } => seq![source],
        FeatureKind::Group { members } => members@,
        FeatureKind::Sweep { profile, .. } => seq![profile],
        _ => seq![],
    }
}

/// The call is of the operation's own sort and has each of its parameters, number
/// for number. A drawn profile or path is handed over as the boundary it closes or
/// the chain it forms, on its own plane.
pub open spec fn says_all_of<B>(call: Call<B>, kind: FeatureKind) -> bool {
    match kind {
        FeatureKind::Box { size } => call matches Call::MakeBox { size: s } && s == size,
        FeatureKind::Cylinder { radius, height } => call matches Call::MakeCylinder {
            radius: r,
            height: h,
        } && r == radius && h == height,
        FeatureKind::Sphere { radius } => call matches Call::MakeSphere { radius: r } && r
            == radius,
        FeatureKind::Sketch { plane, profile } => call matches Call::Sketch {
            plane: p,
            profile: q,
        } && p == plane && q == profile,
        FeatureKind::ConstraintSketch { plane, sketch } => match call {
            Call::SketchLoop { plane: p, points } => p == plane && sketch.beziers@.len() == 0
                && sketch@.profile_loop() == Some(points),
            Call::SketchProfile { plane: p, elements } => p == plane && sketch.beziers@.len() > 0
                && sketch@.profile_elements() == Some(elements),
            _ => false,
        },
        FeatureKind::Extrude { distance, .. } => call matches Call::Extrude { distance: d, .. }
            && d == distance,
        FeatureKind::Translate { offset, .. } => call matches Call::Translate { offset: o, .. }
            && o == offset,
        FeatureKind::Boolean { op, .. } => call matches Call::Boolean { op: o, .. } && o == op,
        FeatureKind::FilletAll { radius, .. } => call matches Call::FilletAll { radius: r, .. }
            && r == radius,
        FeatureKind::Fillet { edges, radius, .. } => call matches Call::FilletEdges {
            anchors,
            radius: r,
            ..
        } && anchors == edges@ && r == radius,
        FeatureKind::PushPull { anchor, distance, .. } => call matches Call::PushPull {
            anchor: a,
            distance: d,
            ..
        } && a == anchor && d == distance,
        FeatureKind::Rotate { axis, angle, center, .. } => call matches Call::Rotate {
            center: c,
            axis: x,
            angle: a,
            ..
        } && c == center && x == axis && a == angle,
        FeatureKind::Scale { factors, anchor, .. } => call matches Call::Scale {
            factors: f,
            anchor: a,
            ..
        } && f == factors && a == anchor,
        FeatureKind::Revolve { axis, angle, .. } => call matches Call::Revolve {
            axis_point,
            angle: a,
            ..
        } && axis_point == axis.point && a == angle,
        FeatureKind::Mirror { origin, normal, .. } => call matches Call::Mirror {
            origin: o,
            normal: n,
            ..
        } && o == origin && n == normal,
        FeatureKind::Group { .. } => call is Compound,
        FeatureKind::Sweep { path: SweepPath::Planar { plane, sketch }, .. }
            => call matches Call::Sweep { plane: p, path, .. } && p == plane
            && sketch@.path_elements() == Some(path),
    }
}

/// A feature whose inputs are there asks for its own operation with its own
/// parameters, on the bodies of the features it refers to, in order: a boolean for
/// its own way of combining, its target as the target and its tool as the tool.
pub proof fn law_a_feature_asks_for_its_own_operation<B>(kind: FeatureKind, bodies: Map<u64, B>)
    ensures
        crate::regen::plan(kind@, bodies) matches Ok(call) ==> {
            &&& says_all_of(call, kind)
            &&& bodies_of(call).len() == references_of(kind).len()
            &&& forall|i: int|
                0 <= i < references_of(kind).len() ==> bodies.contains_key(
                    (#[trigger] references_of(kind)[i]).0,
                ) && bodies_of(call)[i] == bodies[references_of(kind)[i].0]
        },
        kind@.inputs() == references_of(kind),
{
    crate::regen_laws::lemma_plan_needs_inputs(kind@, bodies);
    if let Ok(call) = crate::regen::plan(kind@, bodies) {
        assert forall|i: int| 0 <= i < references_of(kind).len() implies bodies.contains_key(
            (#[trigger] references_of(kind)[i]).0,
        ) && bodies_of(call)[i] == bodies[references_of(kind)[i].0] by {
            assert(kind@.inputs()[i] == references_of(kind)[i]);
        }
    }
}

/// The feature draws its profile or path, so that the call shows the boundary but
/// not every part of the sketch.
pub open spec fn is_drawn(kind: FeatureKind) -> bool {
    kind is ConstraintSketch || kind is Sweep
}

/// Features whose operations differ never ask for the same thing on the same
/// bodies, if it is the bodies that tell their inputs apart. Only of what is drawn
/// can two sketches have the same boundary.
pub proof fn law_different_operations_ask_differently<B>(
    a: FeatureKind,
    b: FeatureKind,
    bodies: Map<u64, B>,
)
    requires
        crate::regen::plan(a@, bodies) is Ok,
        crate::regen::plan(a@, bodies) == crate::regen::plan(b@, bodies),
        forall|x: u64, y: u64|
            #![trigger bodies[x], bodies[y]]
            bodies.contains_key(x) && bodies.contains_key(y) && bodies[x] == bodies[y] ==> x == y,
        !is_drawn(a),
    ensures
        a@ == b@,
{
    law_a_feature_asks_for_its_own_operation(a, bodies);
    law_a_feature_asks_for_its_own_operation(b, bodies);
    let (r, s) = (references_of(a), references_of(b));
    assert forall|i: int| 0 <= i < r.len() implies #[trigger] r[i] == s[i] by {
        assert(bodies[r[i].0] == bodies[s[i].0]);
    }
    assert(r =~= s);
    assert(r.len() > 0 ==> r[0] == s[0]);
    assert(r.len() > 1 ==> r[1] == s[1]);
}

/// A feature without an answer from the kernel has a reason: the first of its inputs
/// that has no body, or a profile, path or group that stands for nothing. Where all
/// inputs are there and what is drawn closes, it asks.
pub proof fn law_only_missing_or_senseless_features_do_not_ask<B>(
    kind: FeatureKind,
    bodies: Map<u64, B>,
)
    ensures
        ({
            let inputs = references_of(kind);
            let senseless = match kind {
                FeatureKind::ConstraintSketch { sketch, .. } => if sketch.beziers@.len() == 0 {
                    sketch@.profile_loop() is None
                } else {
                    sketch@.profile_elements() is None
                },
                FeatureKind::Group { members } => members@.len() == 0,
                FeatureKind::Sweep { path: SweepPath::Planar { sketch, .. }, .. }
                    => sketch@.path_elements() is None,
                _ => false,
            };
            let all_there = forall|i: int|
                0 <= i < inputs.len() ==> bodies.contains_key((#[trigger] inputs[i]).0);
            match crate::regen::plan(kind@, bodies) {
                Ok(_) => all_there && !senseless,
                Err(Fault::Missing(id)) => exists|i: int|
                    {
                        &&& 0 <= i < inputs.len()
                        &&& #[trigger] inputs[i] == id
                        &&& !bodies.contains_key(id.0)
                        &&& forall|j: int|
                            0 <= j < i ==> bodies.contains_key((#[trigger] inputs[j]).0)
                    },
                Err(Fault::Invalid(_)) => all_there && senseless,
            }
        }),
{
    let inputs = references_of(kind);
    law_a_feature_asks_for_its_own_operation(kind, bodies);
    match crate::regen::plan(kind@, bodies) {
        Err(Fault::Missing(id)) => {
            lemma_first_missing_is_first(bodies, inputs, 0);
            assert(inputs =~= kind@.inputs());
            match kind {
                FeatureKind::Boolean { target, tool, .. } => {
                    assert(seq![target, tool] =~= inputs);
                },
                FeatureKind::Group { members } => {},
                _ => {
                    assert(inputs.len() == 1 && inputs[0] == id);
                },
            }
        },
        _ => {},
    }
}

/// The first that is missing comes before any other that is.
proof fn lemma_first_missing_is_first<B>(bodies: Map<u64, B>, ids: Seq<FeatureId>, from: int)
    requires
        0 <= from,
    ensures
        crate::regen::first_missing(bodies, ids, from) matches Some(id) ==> exists|i: int|
            {
                &&& from <= i < ids.len()
                &&& #[trigger] ids[i] == id
                &&& !bodies.contains_key(id.0)
                &&& forall|j: int| from <= j < i ==> bodies.contains_key((#[trigger] ids[j]).0)
            },
    decreases ids.len() - from,
{
    if from < ids.len() {
        if !bodies.contains_key(ids[from].0) {
            assert(ids[from] == ids[from]);
        } else {
            lemma_first_missing_is_first(bodies, ids, from + 1);
            if let Some(id) = crate::regen::first_missing(bodies, ids, from + 1) {
                let i = choose|i: int|
                    {
                        &&& from + 1 <= i < ids.len()
                        &&& #[trigger] ids[i] == id
                        &&& !bodies.contains_key(id.0)
                        &&& forall|j: int|
                            from + 1 <= j < i ==> bodies.contains_key((#[trigger] ids[j]).0)
                    };
                assert(ids[i] == id);
            }
        }
    }
}

/// Each feature that is not suppressed has its turn: it asks with the bodies the
/// features before it have, its body is the answer, and a refusal is reported as its
/// own with the kernel's words. What it was asked and answered stays so to the end.
pub proof fn law_a_body_is_the_answer_to_its_own_question<B, E>(
    features: Seq<FeatureModel>,
    results: Seq<Result<B, E>>,
    i: int,
)
    requires
        crate::regen_laws::distinct_ids(features),
        0 <= i < features.len(),
        !features[i].suppressed,
    ensures
        ({
            let before = crate::regen::replay(features.take(i), results);
            let out = crate::regen::replay(features, results);
            let id = features[i].id;
            let n = before.calls.len() as int;
            match crate::regen::plan(features[i].kind, before.bodies) {
                Ok(call) => n < out.calls.len() && out.calls[n] == call && match results[n] {
                    Ok(body) => out.bodies.contains_key(id.0) && out.bodies[id.0] == body,
                    Err(source) => out.errors.contains(
                        RegenError::Backend { feature: id, source },
                    ),
                },
                Err(Fault::Missing(input)) => out.errors.contains(
                    RegenError::MissingInput { feature: id, input },
                ),
                Err(Fault::Invalid(reason)) => out.errors.contains(
                    RegenError::Invalid { feature: id, reason },
                ),
            }
        }),
{
    let here = crate::regen::replay(features.take(i + 1), results);
    assert(features.take(i + 1).drop_last() =~= features.take(i));
    assert(features.take(i + 1).last() == features[i]);
    lemma_later_turns_keep(features, results, i, features.len());
    assert(features.take(features.len() as int) =~= features);
    let before = crate::regen::replay(features.take(i), results);
    let out = crate::regen::replay(features, results);
    let n = before.calls.len() as int;
    if here.calls.len() > n {
        assert(out.calls[n] == here.calls[n]);
    }
    if here.errors.len() > 0 {
        let last = here.errors.len() - 1;
        assert(out.errors[last] == here.errors[last]);
        assert(out.errors.contains(here.errors.last()));
    }
}

/// What was asked, built and reported up to a feature's turn stays through the turns
/// after it.
proof fn lemma_later_turns_keep<B, E>(
    features: Seq<FeatureModel>,
    results: Seq<Result<B, E>>,
    i: int,
    k: nat,
)
    requires
        crate::regen_laws::distinct_ids(features),
        0 <= i < k <= features.len(),
    ensures
        ({
            let here = crate::regen::replay(features.take(i + 1), results);
            let out = crate::regen::replay(features.take(k as int), results);
            let id = features[i].id.0;
            &&& here.calls.len() <= out.calls.len()
            &&& forall|n: int| 0 <= n < here.calls.len() ==> #[trigger] out.calls[n] == here.calls[n]
            &&& here.errors.len() <= out.errors.len()
            &&& forall|n: int|
                0 <= n < here.errors.len() ==> #[trigger] out.errors[n] == here.errors[n]
            &&& here.bodies.contains_key(id) ==> out.bodies.contains_key(id) && out.bodies[id]
                == here.bodies[id]
        }),
    decreases k,
{
    if i + 1 < k {
        lemma_later_turns_keep(features, results, i, (k - 1) as nat);
        let part = features.take(k as int);
        assert(part.drop_last() =~= features.take(k - 1));
        assert(part.last() == features[k - 1]);
        assert(features[i].id != features[k - 1].id);
    }
}

/// A feature under another id, with the bodies it refers to under other ids too,
/// asks for the same thing: renaming touches references and nothing else.
pub proof fn law_renaming_changes_no_question<B>(
    kind: KindModel,
    f: spec_fn(FeatureId) -> FeatureId,
    bodies: Map<u64, B>,
    renamed: Map<u64, B>,
)
    requires
        forall|i: int|
            0 <= i < kind.inputs().len() ==> bodies.contains_key(
                (#[trigger] kind.inputs()[i]).0,
            ) && renamed.contains_key(f(kind.inputs()[i]).0) && renamed[f(kind.inputs()[i]).0]
                == bodies[kind.inputs()[i].0],
    ensures
        crate::regen::plan(kind.rewired(f), renamed) == crate::regen::plan(kind, bodies),
        kind.rewired(f).inputs() == kind.inputs().map_values(f),
{
    crate::features::lemma_rewired_inputs(kind, f);
    let (inputs, after) = (kind.inputs(), kind.rewired(f).inputs());
    crate::regen_laws::lemma_first_missing(bodies, inputs, 0);
    crate::regen_laws::lemma_first_missing(renamed, after, 0);
    assert(after =~= inputs.map_values(f));
    assert(inputs.len() > 0 ==> after[0] == f(inputs[0]) && bodies.contains_key(inputs[0].0));
    assert(inputs.len() > 1 ==> after[1] == f(inputs[1]) && bodies.contains_key(inputs[1].0));
    match kind {
        KindModel::Boolean { target, tool, .. } => {
            assert(seq![target, tool] =~= inputs);
            assert(seq![f(target), f(tool)] =~= after);
        },
        KindModel::Group { members } => {
            let changed = members.map_values(f);
            assert(Seq::new(changed.len(), |i: int| renamed[changed[i].0]) =~= Seq::new(
                members.len(),
                |i: int| bodies[members[i].0],
            )) by {
                assert forall|i: int| 0 <= i < members.len() implies renamed[changed[i].0]
                    == bodies[members[i].0] by {
                    assert(inputs[i] == members[i]);
                }
            }
        },
        _ => {},
    }
}

/// A document whose sketches end their lines and cubics at points of their own can be
/// replayed.
pub proof fn law_well_drawn_features_can_be_replayed(features: Seq<FeatureModel>)
    requires
        forall|i: int|
            0 <= i < features.len() ==> match (#[trigger] features[i]).kind {
                KindModel::ConstraintSketch { sketch, .. } => sketch.well_formed(),
                KindModel::Sweep { path: PathModel::Planar { sketch, .. }, .. }
                    => sketch.well_formed(),
                _ => true,
            },
    ensures
        crate::regen::replayable(features),
{
    assert forall|i: int| 0 <= i < features.len() && !(#[trigger] features[i]).suppressed implies
        crate::regen::drawable(features[i].kind) by {
        match features[i].kind {
            KindModel::ConstraintSketch { sketch, .. } => {
                crate::sketch_laws::law_well_formed_sketches_know_their_walks(sketch);
            },
            KindModel::Sweep { path: PathModel::Planar { sketch, .. }, .. } => {
                crate::sketch_laws::law_well_formed_sketches_know_their_walks(sketch);
            },
            _ => {},
        }
    }
}

/// The bodies shown are those of the visible features, one each and in order.
pub proof fn law_the_bodies_shown_are_the_visible_ones<B, E>(
    features: Seq<FeatureModel>,
    results: Seq<Result<B, E>>,
)
    requires
        crate::regen_laws::distinct_ids(features),
    ensures
        ({
            let out = crate::regen::replay(features, results).outcome();
            let shown = crate::regen::visible_of(out);
            &&& shown.len() == out.visible.len()
            &&& forall|i: int|
                0 <= i < shown.len() ==> out.bodies.contains_key((#[trigger] out.visible[i]).0)
                    && shown[i] == out.bodies[out.visible[i].0]
        }),
{
    let out = crate::regen::replay(features, results).outcome();
    crate::rebuild_laws::law_visible_is_what_is_left(features, results);
    assert forall|i: int| 0 <= i < out.visible.len() implies out.bodies.contains_key(
        (#[trigger] out.visible[i]).0,
    ) by {
        let p = crate::rebuild_laws::place(features, out.visible[i]);
        crate::history::lemma_position(features, out.visible[i], 0);
    }
    lemma_bodies_listed(out.visible, out.bodies);
}

proof fn lemma_bodies_listed<B>(ids: Seq<FeatureId>, bodies: Map<u64, B>)
    requires
        forall|i: int| 0 <= i < ids.len() ==> bodies.contains_key((#[trigger] ids[i]).0),
    ensures
        crate::regen::bodies_of(ids, bodies).len() == ids.len(),
        forall|i: int|
            0 <= i < ids.len() ==> #[trigger] crate::regen::bodies_of(ids, bodies)[i]
                == bodies[ids[i].0],
    decreases ids.len(),
{
    if ids.len() > 0 {
        let front = ids.drop_last();
        assert forall|i: int| 0 <= i < front.len() implies bodies.contains_key(
            (#[trigger] front[i]).0,
        ) by {
            assert(ids[i] == front[i]);
        }
        lemma_bodies_listed(front, bodies);
        assert(bodies.contains_key(ids[ids.len() - 1].0));
        assert forall|i: int| 0 <= i < ids.len() implies #[trigger] crate::regen::bodies_of(
            ids,
            bodies,
        )[i] == bodies[ids[i].0] by {
            if i < front.len() {
                assert(crate::regen::bodies_of(front, bodies)[i] == bodies[front[i].0]);
            }
        }
    }
}

} // verus!
