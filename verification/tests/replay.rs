//! Replaying a history against a backend that only writes down what it is asked.

use riemanifold::backend::GeometryBackend;
use riemanifold::document::Document;
use riemanifold::features::{
    BooleanOp, EdgeAnchor, FaceAnchor, FeatureId, FeatureKind, SweepPath,
};
use riemanifold::regen::{can_replay, consume_inputs, regenerate, RegenError};
use riemanifold::scalar::{DVec3, Scalar};
use riemanifold::sketch::{LineId, PointId, Profile, ProfileElem, SketchPlane};
use riemanifold::sketch2d::Sketch2d;

fn s(v: f64) -> Scalar {
    Scalar::from_bits(v.to_bits())
}

fn f(v: Scalar) -> f64 {
    f64::from_bits(v.to_bits())
}

fn vec3(x: f64, y: f64, z: f64) -> DVec3 {
    DVec3::new(s(x), s(y), s(z))
}

/// A backend whose body is a string that says how it was built.
#[derive(Default)]
struct Recording;

impl GeometryBackend for Recording {
    type Body = String;
    type Error = String;

    fn make_box(&mut self, size: DVec3) -> Result<String, String> {
        Ok(format!("box({:.0},{:.0},{:.0})", f(size.x), f(size.y), f(size.z)))
    }
    fn make_cylinder(&mut self, radius: Scalar, height: Scalar) -> Result<String, String> {
        Ok(format!("cyl({:.0},{:.0})", f(radius), f(height)))
    }
    fn make_sphere(&mut self, radius: Scalar) -> Result<String, String> {
        Ok(format!("sphere({:.0})", f(radius)))
    }
    fn sketch(&mut self, plane: SketchPlane, profile: Profile) -> Result<String, String> {
        Ok(format!("sketch({},{})", plane.label(), profile.kind_name()))
    }
    fn sketch_loop(
        &mut self,
        plane: SketchPlane,
        points: &[[Scalar; 2]],
    ) -> Result<String, String> {
        Ok(format!("loop({},{}pts)", plane.label(), points.len()))
    }
    fn sketch_profile(
        &mut self,
        plane: SketchPlane,
        elements: &[ProfileElem],
    ) -> Result<String, String> {
        Ok(format!("profile({},{})", plane.label(), elements.len()))
    }
    fn extrude(&mut self, profile: &String, distance: Scalar) -> Result<String, String> {
        Ok(format!("extrude({profile},{:.0})", f(distance)))
    }
    fn revolve(
        &mut self,
        profile: &String,
        _axis: DVec3,
        angle: Scalar,
    ) -> Result<String, String> {
        Ok(format!("revolve({profile},{:.2})", f(angle)))
    }
    fn translate(&mut self, body: &String, offset: DVec3) -> Result<String, String> {
        Ok(format!("xlat({body},{:.0},{:.0},{:.0})", f(offset.x), f(offset.y), f(offset.z)))
    }
    fn boolean(&mut self, op: BooleanOp, target: &String, tool: &String) -> Result<String, String> {
        let name = match op {
            BooleanOp::Union => "union",
            BooleanOp::Subtract => "sub",
            BooleanOp::Intersect => "isect",
        };
        Ok(format!("{name}({target},{tool})"))
    }
    fn fillet_all(&mut self, body: &String, radius: Scalar) -> Result<String, String> {
        if f(radius) <= 0.0 {
            return Err(format!("infeasible fillet radius {}", f(radius)));
        }
        Ok(format!("fillet({body},{:.0})", f(radius)))
    }
    fn fillet_edges(
        &mut self,
        body: &String,
        anchors: &[EdgeAnchor],
        radius: Scalar,
    ) -> Result<String, String> {
        if f(radius) <= 0.0 {
            return Err(format!("infeasible fillet radius {}", f(radius)));
        }
        Ok(format!("fillet_edges({body},{},{:.0})", anchors.len(), f(radius)))
    }
    fn push_pull(
        &mut self,
        body: &String,
        _anchor: FaceAnchor,
        distance: Scalar,
    ) -> Result<String, String> {
        Ok(format!("pushpull({body},{:.0})", f(distance)))
    }
    fn rotate(
        &mut self,
        body: &String,
        _center: DVec3,
        _axis: DVec3,
        angle: Scalar,
    ) -> Result<String, String> {
        Ok(format!("rotate({body},{:.2})", f(angle)))
    }
    fn scale(&mut self, body: &String, factors: DVec3, _anchor: DVec3) -> Result<String, String> {
        Ok(format!("scale({body},{:.1},{:.1},{:.1})", f(factors.x), f(factors.y), f(factors.z)))
    }
    fn mirror(&mut self, body: &String, _origin: DVec3, normal: DVec3) -> Result<String, String> {
        Ok(format!("mirror({body},{:.0},{:.0},{:.0})", f(normal.x), f(normal.y), f(normal.z)))
    }
    fn compound(&mut self, members: &[&String]) -> Result<String, String> {
        let parts: Vec<&str> = members.iter().map(|m| m.as_str()).collect();
        Ok(format!("group({})", parts.join(",")))
    }
    fn sweep(
        &mut self,
        profile: &String,
        plane: SketchPlane,
        path: &[ProfileElem],
    ) -> Result<String, String> {
        Ok(format!("sweep({profile},{},{})", plane.label(), path.len()))
    }
}

/// A filleted box with a bored hole: the document and the ids of its box, fillet,
/// cylinder and cut.
fn sample() -> (Document, [FeatureId; 4]) {
    let mut doc = Document::new("part");
    let b = doc.add("Box", FeatureKind::Box { size: vec3(40.0, 40.0, 40.0) });
    let fl = doc.add("Fillet edges", FeatureKind::FilletAll { source: b, radius: s(4.0) });
    let c = doc.add("Drill", FeatureKind::Cylinder { radius: s(6.0), height: s(60.0) });
    let cut = doc.add(
        "Bore hole",
        FeatureKind::Boolean { op: BooleanOp::Subtract, target: fl, tool: c },
    );
    (doc, [b, fl, c, cut])
}

#[test]
fn full_replay_reduces_to_one_visible_body() {
    let (doc, [_b, _f, _c, cut]) = sample();
    let regen = regenerate(&doc, &mut Recording);

    assert!(regen.is_ok(), "no feature should fail");
    assert_eq!(regen.visible(), &[cut], "only the final cut is visible");
    assert_eq!(
        regen.body(cut).unwrap(),
        "sub(fillet(box(40,40,40),4),cyl(6,60))",
        "history reduces to the expected nested expression"
    );
}

#[test]
fn sketch_extrude_reduces_to_a_prism() {
    let mut doc = Document::new("prism");
    let sk = doc.add(
        "Sketch",
        FeatureKind::Sketch {
            plane: SketchPlane::Xy,
            profile: Profile::Rectangle { width: s(30.0), height: s(20.0) },
        },
    );
    let ext = doc.add("Extrude", FeatureKind::Extrude { source: sk, distance: s(15.0) });
    let regen = regenerate(&doc, &mut Recording);

    assert!(regen.is_ok());
    assert_eq!(regen.visible(), &[ext]);
    assert_eq!(regen.body(ext).unwrap(), "extrude(sketch(XY,Rectangle),15)");
}

#[test]
fn deleting_a_feature_heals_its_dependents() {
    let (mut doc, [b, fl, _c, cut]) = sample();
    doc.history.remove(fl);

    match doc.history.get(cut).unwrap().kind {
        FeatureKind::Boolean { target, .. } => assert_eq!(target, b, "cut rewired to the box"),
        _ => panic!("cut should still be a boolean"),
    }
    assert!(doc.history.validate().is_ok());
    let regen = regenerate(&doc, &mut Recording);
    assert!(regen.is_ok(), "no dangling references after a healed delete");
}

#[test]
fn history_validates_clean() {
    let (doc, _) = sample();
    assert!(doc.history.validate().is_ok());
}

#[test]
fn rollback_shows_earlier_state_with_unconsumed_bodies() {
    let (mut doc, [_b, fl, c, _cut]) = sample();
    doc.set_rollback(3);
    let regen = regenerate(&doc, &mut Recording);

    assert!(regen.is_ok());
    assert_eq!(regen.visible(), &[fl, c]);
}

#[test]
fn suppressing_an_input_breaks_only_its_dependents() {
    let (mut doc, [b, fl, c, cut]) = sample();
    doc.history.set_suppressed(fl, true);
    let regen = regenerate(&doc, &mut Recording);

    assert!(!regen.is_ok());
    let errors = regen.errors();
    assert_eq!(errors.len(), 1);
    assert!(matches!(
        errors[0],
        RegenError::MissingInput { feature, input } if feature == cut && input == fl
    ));
    assert_eq!(regen.visible(), &[b, c]);
}

#[test]
fn editing_a_parameter_propagates_downstream() {
    let (mut doc, [b, _f, _c, cut]) = sample();
    doc.history.get_mut(b).unwrap().kind = FeatureKind::Box { size: vec3(10.0, 20.0, 30.0) };
    let regen = regenerate(&doc, &mut Recording);

    assert_eq!(
        regen.body(cut).unwrap(),
        "sub(fillet(box(10,20,30),4),cyl(6,60))",
        "the edited box size flows through fillet and cut"
    );
}

#[test]
fn reorder_rejects_forward_reference_and_leaves_history_unchanged() {
    let (mut doc, [_b, _f, _c, cut]) = sample();
    let err = doc.history.reorder(cut, 0).unwrap_err();
    assert!(!err.is_empty());
    assert_eq!(
        doc.history.features().last().unwrap().id,
        cut,
        "a rejected reorder must not mutate history"
    );
}

#[test]
fn reorder_independent_feature_is_allowed() {
    let (mut doc, [_b, _f, c, _cut]) = sample();
    assert!(doc.history.reorder(c, 0).is_ok());
    assert!(doc.history.validate().is_ok());
    assert_eq!(doc.history.features()[0].id, c);
    let regen = regenerate(&doc, &mut Recording);
    assert!(regen.is_ok());
}

#[test]
fn backend_failure_is_recorded_and_isolated() {
    let mut doc = Document::new("bad-fillet");
    let b = doc.add("Box", FeatureKind::Box { size: vec3(5.0, 5.0, 5.0) });
    let bad = doc.add("Fillet", FeatureKind::FilletAll { source: b, radius: s(0.0) });
    let regen = regenerate(&doc, &mut Recording);

    assert!(!regen.is_ok());
    assert!(matches!(
        regen.errors()[0],
        RegenError::Backend { feature, .. } if feature == bad
    ));
    assert_eq!(regen.visible(), &[b]);
}

#[test]
fn clone_subtree_duplicates_a_body_independently() {
    let mut doc = Document::new("dup");
    let a = doc.add("Box", FeatureKind::Box { size: DVec3::splat(s(10.0)) });
    let b = doc.add(
        "Move",
        FeatureKind::Translate { source: a, offset: vec3(5.0, 0.0, 0.0) },
    );

    let b2 = doc.duplicate(b).expect("clone the subtree");
    assert_ne!(b2, b, "fresh tip id");
    assert_eq!(doc.history.len(), 4, "Box' + Move' appended");

    let a2 = doc.history.get(b2).unwrap().kind.inputs()[0];
    assert_ne!(a2, a, "clone rewired to its own Box copy");

    if let Some(FeatureKind::Box { size }) = doc.history.get_mut(a).map(|f| &mut f.kind) {
        size.x = s(99.0);
    }
    let unaffected = matches!(
        &doc.history.get(a2).unwrap().kind,
        FeatureKind::Box { size } if (f(size.x) - 10.0).abs() < 1e-9
    );
    assert!(unaffected, "clone's box is independent of the original");

    assert!(doc.history.validate().is_ok());
    let regen = regenerate(&doc, &mut Recording);
    assert!(regen.is_ok());
    assert_eq!(regen.visible(), &[b, b2], "two independent visible bodies");
}

#[test]
fn grouping_merges_lanes_and_ungroup_splits_them() {
    let mut doc = Document::new("grp");
    let a = doc.add("A", FeatureKind::Box { size: DVec3::splat(s(10.0)) });
    let b = doc.add("B", FeatureKind::Box { size: DVec3::splat(s(10.0)) });
    let g = doc.add("Group", FeatureKind::Group { members: vec![a, b] });

    let regen = regenerate(&doc, &mut Recording);
    assert!(regen.is_ok());
    assert_eq!(regen.visible(), &[g], "group is the single visible body");
    assert_eq!(regen.body(g).unwrap(), "group(box(10,10,10),box(10,10,10))");

    doc.history.remove(g);
    assert!(doc.history.validate().is_ok());
    let regen = regenerate(&doc, &mut Recording);
    assert_eq!(regen.visible(), &[a, b], "members independently visible after ungroup");
}

/// A closed polygon through the given places.
fn polygon(places: &[(f64, f64)]) -> Sketch2d {
    let mut sketch = Sketch2d::new();
    let ids: Vec<PointId> =
        places.iter().map(|&(x, y)| sketch.add_point(s(x), s(y))).collect();
    for i in 0..ids.len() {
        sketch.add_line(ids[i], ids[(i + 1) % ids.len()]);
    }
    sketch
}

#[test]
fn every_operation_reaches_the_backend() {
    let mut doc = Document::new("all");
    let square = polygon(&[(0.0, 0.0), (4.0, 0.0), (4.0, 4.0), (0.0, 4.0)]);
    let mut curved = polygon(&[(0.0, 0.0), (4.0, 0.0), (4.0, 4.0), (0.0, 4.0)]);
    assert!(curved.curve_line(LineId(0), [s(1.0), s(-1.0)], [s(3.0), s(-1.0)]));
    let mut path = Sketch2d::new();
    let p = path.add_point(s(0.0), s(0.0));
    let q = path.add_point(s(0.0), s(9.0));
    path.add_line(p, q);

    let face = doc.add(
        "Loop",
        FeatureKind::ConstraintSketch { plane: SketchPlane::Xz, sketch: square },
    );
    let curvy = doc.add(
        "Curvy",
        FeatureKind::ConstraintSketch { plane: SketchPlane::Yz, sketch: curved },
    );
    let axis = EdgeAnchor { point: vec3(0.0, 0.0, 0.0) };
    let turned = doc.add(
        "Revolve",
        FeatureKind::Revolve { source: face, axis, angle: s(1.5) },
    );
    let swept = doc.add(
        "Sweep",
        FeatureKind::Sweep {
            profile: curvy,
            path: SweepPath::Planar { plane: SketchPlane::Xy, sketch: path },
        },
    );
    let ball = doc.add("Ball", FeatureKind::Sphere { radius: s(3.0) });
    let mirrored = doc.add(
        "Mirror",
        FeatureKind::Mirror {
            source: ball,
            origin: vec3(0.0, 0.0, 0.0),
            normal: vec3(1.0, 0.0, 0.0),
        },
    );
    let scaled = doc.add(
        "Scale",
        FeatureKind::Scale {
            source: mirrored,
            factors: vec3(2.0, 1.0, 0.5),
            anchor: vec3(0.0, 0.0, 0.0),
        },
    );
    let spun = doc.add(
        "Rotate",
        FeatureKind::Rotate {
            source: scaled,
            axis: vec3(0.0, 0.0, 1.0),
            angle: s(0.25),
            center: vec3(0.0, 0.0, 0.0),
        },
    );
    let pushed = doc.add(
        "Push",
        FeatureKind::PushPull {
            source: spun,
            anchor: FaceAnchor { point: vec3(0.0, 0.0, 1.0), normal: vec3(0.0, 0.0, 1.0) },
            distance: s(7.0),
        },
    );
    let rounded = doc.add(
        "Edges",
        FeatureKind::Fillet { source: pushed, edges: vec![axis, axis], radius: s(1.0) },
    );

    assert!(can_replay(&doc));
    let regen = regenerate(&doc, &mut Recording);
    assert!(regen.is_ok(), "{:?}", regen.errors());
    assert_eq!(regen.visible(), &[turned, swept, rounded]);
    assert_eq!(regen.body(turned).unwrap(), "revolve(loop(XZ,4pts),1.50)");
    assert_eq!(regen.body(swept).unwrap(), "sweep(profile(YZ,4),XY,1)");
    assert_eq!(
        regen.body(rounded).unwrap(),
        "fillet_edges(pushpull(rotate(scale(mirror(sphere(3),1,0,0),2.0,1.0,0.5),0.25),7),2,1)"
    );
    let bodies = regen.visible_bodies();
    assert_eq!(bodies.len(), 3);
    assert_eq!(bodies[0], regen.body(turned).unwrap());
    let first = regen.body(turned).unwrap().clone();
    let taken = regen.into_visible_bodies();
    assert_eq!(taken.len(), 3);
    assert_eq!(taken[0], first);
}

#[test]
fn senseless_features_are_refused_without_asking() {
    let mut doc = Document::new("senseless");
    let mut open = Sketch2d::new();
    let p = open.add_point(s(0.0), s(0.0));
    let q = open.add_point(s(1.0), s(0.0));
    open.add_line(p, q);
    let sketch = doc.add(
        "Open",
        FeatureKind::ConstraintSketch { plane: SketchPlane::Xy, sketch: open },
    );
    let empty = doc.add("Empty", FeatureKind::Group { members: vec![] });
    let ball = doc.add("Ball", FeatureKind::Sphere { radius: s(1.0) });
    let closed = polygon(&[(0.0, 0.0), (1.0, 0.0), (0.0, 1.0)]);
    let sweep = doc.add(
        "Sweep",
        FeatureKind::Sweep {
            profile: ball,
            path: SweepPath::Planar { plane: SketchPlane::Xy, sketch: closed },
        },
    );
    let regen = regenerate(&doc, &mut Recording);
    let failed: Vec<FeatureId> = regen.errors().iter().map(|e| e.feature()).collect();
    assert_eq!(failed, vec![sketch, empty, sweep]);
    for e in regen.errors() {
        assert!(matches!(e, RegenError::Invalid { .. }));
    }
    assert!(matches!(
        regen.errors()[1],
        RegenError::Invalid { reason, .. } if reason == "group has no members"
    ));
    assert!(matches!(
        regen.errors()[2],
        RegenError::Invalid { reason, .. } if reason == "sweep path is not a single open chain"
    ));
    assert_eq!(regen.visible(), &[ball]);
}

#[test]
fn a_stray_end_matters_only_where_it_is_met() {
    // The stray line closes no loop, so its end is never looked up.
    let mut doc = Document::new("stray");
    let mut sketch = polygon(&[(0.0, 0.0), (1.0, 0.0), (0.0, 1.0)]);
    sketch.add_line(PointId(0), PointId(17));
    assert!(sketch.is_loop_known() && sketch.is_boundary_known() && !sketch.is_path_known());
    doc.add("Stray", FeatureKind::ConstraintSketch { plane: SketchPlane::Xy, sketch });
    assert!(can_replay(&doc));

    // Here the loop runs through the missing point.
    let mut sketch = polygon(&[(0.0, 0.0), (1.0, 0.0), (0.0, 1.0)]);
    sketch.points.pop();
    assert!(!sketch.is_loop_known() && !sketch.is_boundary_known() && sketch.is_path_known());
    let id = doc.add("Gap", FeatureKind::ConstraintSketch { plane: SketchPlane::Xy, sketch });
    assert!(!can_replay(&doc));
    doc.history.set_suppressed(id, true);
    assert!(can_replay(&doc), "a suppressed feature is not drawn");
    doc.history.set_suppressed(id, false);
    doc.set_rollback(1);
    assert!(can_replay(&doc), "nor is one behind the bar");
}

#[test]
fn consuming_takes_inputs_out_of_sight() {
    let kind = FeatureKind::Boolean {
        op: BooleanOp::Union,
        target: FeatureId(1),
        tool: FeatureId(3),
    };
    let mut visible = vec![FeatureId(1), FeatureId(2), FeatureId(3)];
    consume_inputs(&mut visible, &kind.inputs());
    assert_eq!(visible, vec![FeatureId(2)]);
}
