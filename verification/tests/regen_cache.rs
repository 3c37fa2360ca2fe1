//! Replaying again: what did not change is reused, and what depends on a change is
//! rebuilt.

use riemanifold::backend::GeometryBackend;
use riemanifold::cache::RegenCache;
use riemanifold::document::Document;
use riemanifold::features::{BooleanOp, EdgeAnchor, FaceAnchor, FeatureId, FeatureKind};
use riemanifold::regen::regenerate;
use riemanifold::scalar::{DVec3, Scalar};
use riemanifold::sketch::{Profile, ProfileElem, SketchPlane};

fn s(v: f64) -> Scalar {
    Scalar::from_bits(v.to_bits())
}

fn f(v: Scalar) -> f64 {
    f64::from_bits(v.to_bits())
}

fn vec3(x: f64, y: f64, z: f64) -> DVec3 {
    DVec3::new(s(x), s(y), s(z))
}

/// A backend that counts what it is asked. Bodies are strings that say how they
/// were built.
#[derive(Default)]
struct Counting {
    ops: usize,
}

impl GeometryBackend for Counting {
    type Body = String;
    type Error = String;

    fn make_box(&mut self, size: DVec3) -> Result<String, String> {
        self.ops += 1;
        Ok(format!("box({},{},{})", f(size.x), f(size.y), f(size.z)))
    }
    fn make_cylinder(&mut self, r: Scalar, h: Scalar) -> Result<String, String> {
        self.ops += 1;
        Ok(format!("cyl({},{})", f(r), f(h)))
    }
    fn make_sphere(&mut self, r: Scalar) -> Result<String, String> {
        self.ops += 1;
        Ok(format!("sphere({})", f(r)))
    }
    fn sketch(&mut self, _p: SketchPlane, _profile: Profile) -> Result<String, String> {
        self.ops += 1;
        Ok("sketch".to_string())
    }
    fn sketch_loop(&mut self, _p: SketchPlane, pts: &[[Scalar; 2]]) -> Result<String, String> {
        self.ops += 1;
        Ok(format!("loop({})", pts.len()))
    }
    fn sketch_profile(&mut self, _p: SketchPlane, e: &[ProfileElem]) -> Result<String, String> {
        self.ops += 1;
        Ok(format!("profile({})", e.len()))
    }
    fn extrude(&mut self, b: &String, d: Scalar) -> Result<String, String> {
        self.ops += 1;
        Ok(format!("extrude({b},{})", f(d)))
    }
    fn revolve(&mut self, b: &String, _a: DVec3, angle: Scalar) -> Result<String, String> {
        self.ops += 1;
        Ok(format!("revolve({b},{})", f(angle)))
    }
    fn translate(&mut self, b: &String, o: DVec3) -> Result<String, String> {
        self.ops += 1;
        Ok(format!("move({b},{},{},{})", f(o.x), f(o.y), f(o.z)))
    }
    fn boolean(&mut self, _op: BooleanOp, a: &String, b: &String) -> Result<String, String> {
        self.ops += 1;
        Ok(format!("bool({a},{b})"))
    }
    fn fillet_all(&mut self, b: &String, r: Scalar) -> Result<String, String> {
        self.ops += 1;
        if f(r) <= 0.0 {
            return Err("radius".to_string());
        }
        Ok(format!("fillet({b},{})", f(r)))
    }
    fn fillet_edges(
        &mut self,
        b: &String,
        e: &[EdgeAnchor],
        r: Scalar,
    ) -> Result<String, String> {
        self.ops += 1;
        Ok(format!("filletE({b},{},{})", e.len(), f(r)))
    }
    fn push_pull(&mut self, b: &String, _a: FaceAnchor, d: Scalar) -> Result<String, String> {
        self.ops += 1;
        Ok(format!("pp({b},{})", f(d)))
    }
    fn rotate(
        &mut self,
        b: &String,
        _c: DVec3,
        _ax: DVec3,
        angle: Scalar,
    ) -> Result<String, String> {
        self.ops += 1;
        Ok(format!("rot({b},{})", f(angle)))
    }
    fn scale(&mut self, b: &String, factors: DVec3, _a: DVec3) -> Result<String, String> {
        self.ops += 1;
        Ok(format!("scale({b},{})", f(factors.x)))
    }
    fn mirror(&mut self, b: &String, _o: DVec3, n: DVec3) -> Result<String, String> {
        self.ops += 1;
        Ok(format!("mirror({b},{})", f(n.x)))
    }
    fn compound(&mut self, members: &[&String]) -> Result<String, String> {
        self.ops += 1;
        Ok(format!("group({})", members.len()))
    }
    fn sweep(
        &mut self,
        b: &String,
        _p: SketchPlane,
        path: &[ProfileElem],
    ) -> Result<String, String> {
        self.ops += 1;
        Ok(format!("sweep({b},{})", path.len()))
    }
}

/// A chain of three: box, move, fillet.
fn chain() -> (Document, [FeatureId; 3]) {
    let mut doc = Document::new("chain");
    let b = doc.add("Box", FeatureKind::Box { size: DVec3::splat(s(10.0)) });
    let m = doc.add("Move", FeatureKind::Translate { source: b, offset: vec3(5.0, 0.0, 0.0) });
    let fl = doc.add("Fillet", FeatureKind::FilletAll { source: m, radius: s(1.0) });
    (doc, [b, m, fl])
}

#[test]
fn unchanged_features_are_reused() {
    let (doc, _) = chain();
    let mut cache = RegenCache::new();
    let mut backend = Counting::default();

    let r = cache.regenerate(&doc, &mut backend);
    assert!(r.is_ok());
    assert_eq!(backend.ops, 3, "cold regen builds all three");

    cache.regenerate(&doc, &mut backend);
    assert_eq!(backend.ops, 3, "a second regen with no change rebuilds nothing");
}

#[test]
fn editing_a_feature_rebuilds_it_and_only_downstream() {
    let (mut doc, [_b, m, fl]) = chain();
    let mut cache = RegenCache::new();
    let mut backend = Counting::default();
    cache.regenerate(&doc, &mut backend);
    assert_eq!(backend.ops, 3);

    if let FeatureKind::Translate { offset, .. } = &mut doc.history.get_mut(m).unwrap().kind {
        offset.x = s(9.0);
    }
    cache.regenerate(&doc, &mut backend);
    assert_eq!(backend.ops, 5, "move + fillet rebuild (+2); box reused");

    if let FeatureKind::FilletAll { radius, .. } = &mut doc.history.get_mut(fl).unwrap().kind {
        *radius = s(2.0);
    }
    cache.regenerate(&doc, &mut backend);
    assert_eq!(backend.ops, 6, "only the fillet rebuilds (+1)");

    let r = cache.regenerate(&doc, &mut backend);
    assert_eq!(backend.ops, 6, "no further change");
    let tip = r.visible().last().copied().unwrap();
    assert_eq!(r.body(tip).unwrap(), "fillet(move(box(10,10,10),9,0,0),2)");
}

#[test]
fn deleting_a_feature_prunes_it_and_reuses_the_rest() {
    let (mut doc, [_b, _m, fl]) = chain();
    let mut cache = RegenCache::new();
    let mut backend = Counting::default();
    cache.regenerate(&doc, &mut backend);
    assert_eq!(backend.ops, 3);

    doc.history.remove(fl);
    let r = cache.regenerate(&doc, &mut backend);
    assert_eq!(backend.ops, 3, "remaining features reused after a delete");
    assert_eq!(r.visible().len(), 1, "the move is the lone visible body");
}

#[test]
fn suppress_then_unsuppress_rebuilds_only_when_needed() {
    let mut doc = Document::new("sup");
    let a = doc.add("A", FeatureKind::Box { size: DVec3::splat(s(10.0)) });
    let c = doc.add("C", FeatureKind::Cylinder { radius: s(2.0), height: s(20.0) });
    doc.add("U", FeatureKind::Boolean { op: BooleanOp::Union, target: a, tool: c });
    let mut cache = RegenCache::new();
    let mut backend = Counting::default();
    cache.regenerate(&doc, &mut backend);
    assert_eq!(backend.ops, 3);

    doc.history.get_mut(c).unwrap().suppressed = true;
    let r = cache.regenerate(&doc, &mut backend);
    assert!(!r.is_ok(), "union errors with a suppressed input");

    doc.history.get_mut(c).unwrap().suppressed = false;
    cache.regenerate(&doc, &mut backend);
    assert_eq!(backend.ops, 4, "only the union rebuilds; box and cylinder reused");
}

#[test]
fn a_failure_is_tried_again_and_its_dependents_wait() {
    let mut doc = Document::new("fail");
    let b = doc.add("Box", FeatureKind::Box { size: DVec3::splat(s(10.0)) });
    let bad = doc.add("Fillet", FeatureKind::FilletAll { source: b, radius: s(0.0) });
    doc.add("Move", FeatureKind::Translate { source: bad, offset: vec3(1.0, 0.0, 0.0) });
    let mut cache = RegenCache::new();
    let mut backend = Counting::default();
    let r = cache.regenerate(&doc, &mut backend);
    assert_eq!(r.errors().len(), 2);
    assert_eq!(r.visible(), &[b]);
    assert_eq!(backend.ops, 2, "the move is never asked for");

    cache.regenerate(&doc, &mut backend);
    assert_eq!(backend.ops, 3, "only the failed fillet is tried again");

    doc.history.get_mut(bad).unwrap().kind = FeatureKind::FilletAll { source: b, radius: s(2.0) };
    let r = cache.regenerate(&doc, &mut backend);
    assert!(r.is_ok());
    assert_eq!(backend.ops, 5);
}

#[test]
fn a_cached_replay_gives_what_a_full_one_gives() {
    let (mut doc, [b, m, _f]) = chain();
    let mut cache = RegenCache::default();
    let mut backend = Counting::default();
    for step in 0..6 {
        match step {
            1 => {
                doc.history.get_mut(b).unwrap().kind =
                    FeatureKind::Box { size: vec3(1.0, 2.0, 3.0) };
            }
            2 => doc.set_rollback(2),
            3 => doc.rollback_to_tip(),
            4 => {
                doc.duplicate(m);
            }
            5 => {
                doc.history.remove(m);
            }
            _ => {}
        }
        let cached = cache.regenerate(&doc, &mut backend);
        let full = regenerate(&doc, &mut Counting::default());
        assert_eq!(cached.visible(), full.visible());
        assert_eq!(cached.errors(), full.errors());
        for id in full.visible() {
            assert_eq!(cached.body(*id), full.body(*id));
        }
    }
}
