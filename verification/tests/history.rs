//! The history, the document around it, and its build graph.

use riemanifold::document::Document;
use riemanifold::features::{BooleanOp, FeatureId, FeatureKind};
use riemanifold::history::{DependencyError, History};
use riemanifold::scalar::{DVec3, Scalar};
use riemanifold::text::{decimal_text, number_after, numbered_name};
use riemanifold::theme::Theme;
use riemanifold::units::LengthUnit;

fn s(v: f64) -> Scalar {
    Scalar::from_bits(v.to_bits())
}

fn f(v: Scalar) -> f64 {
    f64::from_bits(v.to_bits())
}

fn cube(size: f64) -> FeatureKind {
    FeatureKind::Box { size: DVec3::splat(s(size)) }
}

fn moved(source: FeatureId, x: f64, y: f64) -> FeatureKind {
    FeatureKind::Translate { source, offset: DVec3::new(s(x), s(y), s(0.0)) }
}

#[test]
fn a_linear_chain_is_one_lane() {
    let mut doc = Document::new("chain");
    let b = doc.add("Box", cube(10.0));
    let m = doc.add("Move", moved(b, 1.0, 0.0));
    doc.add("Fillet", FeatureKind::FilletAll { source: m, radius: s(1.0) });

    let g = doc.history.build_graph();
    assert_eq!(g.lane_count, 1, "a straight chain stays on one lane");
    assert!(g.rows.iter().all(|r| r.lane == 0));
}

#[test]
fn a_boolean_is_a_two_lane_merge() {
    let mut doc = Document::new("bool");
    let a = doc.add("A", cube(10.0));
    let c = doc.add("C", FeatureKind::Cylinder { radius: s(2.0), height: s(20.0) });
    let u = doc.add("U", FeatureKind::Boolean { op: BooleanOp::Union, target: a, tool: c });

    let g = doc.history.build_graph();
    assert_eq!(g.lane_count, 2, "two source bodies give two lanes");
    assert_eq!(g.rows[1].lane, 1, "cylinder on lane 1");
    let union_row = g.rows.iter().find(|r| r.id == u).unwrap();
    assert!(union_row.is_merge, "the boolean is a merge node");
    assert_eq!(union_row.input_lanes.len(), 2, "two inputs feed it");
    assert_eq!(union_row.lane, 0, "it continues the target's lane");
}

#[test]
fn a_body_feeding_two_consumers_branches() {
    let mut doc = Document::new("branch");
    let b = doc.add("Box", cube(10.0));
    doc.add("M1", moved(b, 1.0, 0.0));
    doc.add("M2", moved(b, 0.0, 1.0));

    let g = doc.history.build_graph();
    assert_eq!(g.lane_count, 2, "a branch opens a second lane");
    assert_eq!(g.rows[0].lane, 0, "the source holds lane 0");
    assert!(g.rows[1].lane != 0 && g.rows[2].lane != 0, "both consumers branch off");
}

#[test]
fn graph_rows_follow_the_history() {
    let mut doc = Document::new("rows");
    let a = doc.add("A", cube(1.0));
    let b = doc.add("B", moved(a, 1.0, 0.0));
    let g = doc.history.build_graph();
    assert_eq!(g.rows.iter().map(|r| r.id).collect::<Vec<_>>(), vec![a, b]);
    assert_eq!(g.rows[1].input_lanes, vec![0]);
    assert!(g.rows[0].top_open.is_empty());
    assert_eq!(g.rows[1].top_open, g.rows[0].open);
    assert_eq!(History::new().build_graph().rows.len(), 0);
}

#[test]
fn lanes_are_kept_until_the_last_consumer() {
    let mut doc = Document::new("lanes");
    let a = doc.add("A", cube(1.0));
    doc.add("M", moved(a, 1.0, 0.0));
    let c = doc.add("C", cube(2.0));
    doc.add("N", moved(c, 1.0, 0.0));
    doc.add("O", moved(a, 2.0, 0.0));

    let g = doc.history.build_graph();
    let lanes: Vec<usize> = g.rows.iter().map(|r| r.lane).collect();
    assert_eq!(lanes, vec![0, 1, 1, 1, 1], "the move ends at once, so its lane is free again");
    assert!(g.rows[..4].iter().all(|r| r.open.contains(&0)), "the first body is still wanted");
    assert!(g.rows[4].top_open.contains(&0));
    assert!(g.rows.iter().all(|r| r.open.windows(2).all(|w| w[0] < w[1])));
    assert_eq!(g.lane_count, 2);
    assert_eq!(g.rows[3].lane, g.rows[2].lane, "a sole consumer goes on along the lane");
    assert_ne!(g.rows[4].lane, g.rows[0].lane, "one of two branches off");
}

#[test]
fn name_numbers_climb_and_never_backfill_gaps() {
    let mut h = History::default();
    assert_eq!(h.next_name_number("Fillet"), 1);
    let a = h.add("Fillet 1", cube(1.0));
    let b = h.add("Fillet 2", cube(1.0));
    let _c = h.add("Fillet 3", cube(1.0));
    assert_eq!(h.next_name_number("Fillet"), 4);

    h.remove(b);
    assert_eq!(h.next_name_number("Fillet"), 4, "gap at 2 is not backfilled");

    let _ = a;
    h.add("Fillet edges", cube(1.0));
    assert_eq!(h.next_name_number("Fillet"), 4);
    assert_eq!(h.next_name_number("Move"), 1);
}

#[test]
fn numbering_stops_at_the_largest_number() {
    let mut h = History::new();
    h.add("Box 4294967295", cube(1.0));
    assert!(!h.can_number("Box"));
    assert!(h.can_number("Fillet"));
    h.add("Fillet 4294967296", cube(1.0));
    assert_eq!(h.next_name_number("Fillet"), 1, "too large to be a number");
}

#[test]
fn numbered_features_climb() {
    let mut doc = Document::new("numbered");
    doc.add_numbered("Box", cube(1.0));
    let second = doc.add_numbered("Box", cube(1.0));
    assert_eq!(doc.history.get(second).unwrap().name, "Box 2");
}

#[test]
fn numbers_read_back() {
    for n in [0u32, 7, 10, 42, 4294967295] {
        let name = numbered_name("Sketch", n);
        assert_eq!(name, format!("Sketch {n}"));
        assert_eq!(number_after(&name, "Sketch"), Some(n));
    }
    assert_eq!(number_after("Sketch x", "Sketch"), None);
    assert_eq!(number_after("Skeleton 3", "Sketch"), None);
    assert_eq!(number_after("Sketch", "Sketch"), None);
    assert_eq!(decimal_text(18446744073709551615), "18446744073709551615");
}

#[test]
fn new_features_go_to_the_bar() {
    let mut doc = Document::new("bar");
    let a = doc.add("A", cube(1.0));
    let b = doc.add("B", cube(2.0));
    doc.set_rollback(1);
    let c = doc.add("C", cube(3.0));
    let order: Vec<FeatureId> = doc.history.features().iter().map(|x| x.id).collect();
    assert_eq!(order, vec![a, c, b]);
    assert_eq!(doc.rollback(), 2, "the new feature is the last active one");
    assert!(!doc.is_at_tip());
    assert_eq!(doc.active_features().len(), 2);
    doc.rollback_to_tip();
    assert!(doc.is_at_tip());
    doc.set_rollback(99);
    assert_eq!(doc.rollback(), 3);
}

#[test]
fn the_bar_counts_what_is_there() {
    let mut doc = Document::default();
    assert_eq!(doc.name, "Untitled");
    let a = doc.add("A", cube(1.0));
    doc.add("B", cube(2.0));
    doc.history.remove(a);
    assert_eq!(doc.rollback(), 1);
    assert_eq!(doc.clone().rollback(), 1);
}

#[test]
fn removing_a_source_orphans_its_consumers() {
    let mut h = History::new();
    let a = h.add("A", cube(1.0));
    let m = h.add("M", moved(a, 1.0, 0.0));
    let gone = h.remove(a).unwrap();
    assert_eq!(gone.name, "A");
    assert_eq!(
        h.validate(),
        Err(vec![DependencyError::UnknownInput { feature: m, input: a }])
    );
    assert_eq!(
        h.validate().unwrap_err()[0].message(),
        "feature FeatureId(2) references FeatureId(1), which does not exist"
    );
    assert!(h.remove(a).is_none());
}

#[test]
fn a_refused_move_says_why() {
    let mut h = History::new();
    let a = h.add("A", cube(1.0));
    let m = h.add("M", moved(a, 1.0, 0.0));
    let errors = h.reorder(m, 0).unwrap_err();
    assert_eq!(errors, vec![DependencyError::ForwardReference { feature: m, input: a }]);
    assert_eq!(
        errors[0].message(),
        "feature FeatureId(2) references FeatureId(1), which comes later in history"
    );
    assert_eq!(h.index_of(m), Some(1));
    assert!(h.reorder(FeatureId(77), 0).is_ok());
    assert!(h.reorder(a, 0).is_ok());
}

#[test]
fn a_removed_boolean_hands_its_consumers_to_its_target() {
    let mut h = History::new();
    let a = h.add("A", cube(1.0));
    let b = h.add("B", cube(2.0));
    let u = h.add("U", FeatureKind::Boolean { op: BooleanOp::Union, target: a, tool: b });
    let g = h.add("G", FeatureKind::Group { members: vec![u, b] });
    h.remove(u);
    assert_eq!(h.get(g).unwrap().kind.inputs(), vec![a, b]);
    assert!(h.validate().is_ok());
}

#[test]
fn ids_are_never_reused() {
    let mut h = History::new();
    let a = h.add("A", cube(1.0));
    h.remove(a);
    assert_ne!(h.add("B", cube(1.0)), a);
    assert_eq!(h.next_id(), 3);
    let again = History::restored(Vec::new(), 9);
    assert_eq!(again.next_id(), 9);
    assert!(again.is_empty());
}

#[test]
fn a_copied_subtree_keeps_what_feeds_it_twice() {
    let mut doc = Document::new("diamond");
    let a = doc.add("A", cube(1.0));
    let l = doc.add("L", moved(a, 1.0, 0.0));
    let r = doc.add("R", moved(a, 0.0, 1.0));
    let u = doc.add("U", FeatureKind::Boolean { op: BooleanOp::Union, target: l, tool: r });
    doc.add("Other", cube(9.0));
    let copy = doc.duplicate(u).unwrap();
    assert_eq!(doc.history.len(), 9, "four copies, the unrelated box is not copied");
    let inputs = doc.history.get(copy).unwrap().kind.inputs();
    let left = doc.history.get(inputs[0]).unwrap().kind.inputs();
    let right = doc.history.get(inputs[1]).unwrap().kind.inputs();
    assert_eq!(left, right, "both sides share one copy of the source");
    assert_ne!(left, vec![a]);
    assert_eq!(doc.duplicate(FeatureId(1000)), None);
}

#[test]
fn features_say_what_they_do() {
    assert_eq!(cube(1.0).kind_name(), "Box");
    assert_eq!(moved(FeatureId(1), 0.0, 0.0).kind_name(), "Translate");
    assert_eq!(cube(1.0).primary_input(), None);
    assert_eq!(moved(FeatureId(4), 0.0, 0.0).primary_input(), Some(FeatureId(4)));
    let mut kind = moved(FeatureId(4), 0.0, 0.0);
    kind.remap_input(FeatureId(4), FeatureId(2));
    assert_eq!(kind.inputs(), vec![FeatureId(2)]);
}

/// Lengths in the unit, as millimetres.
fn to_mm(unit: LengthUnit, value: f64) -> f64 {
    value * f(unit.mm_per_unit())
}

/// Millimetres, in the unit.
fn from_mm(unit: LengthUnit, mm: f64) -> f64 {
    mm / f(unit.mm_per_unit())
}

#[test]
fn inch_roundtrips_through_mm() {
    let one_inch_mm = to_mm(LengthUnit::Inch, 1.0);
    assert!((one_inch_mm - 25.4).abs() < 1e-9);
    assert!((from_mm(LengthUnit::Inch, one_inch_mm) - 1.0).abs() < 1e-9);
}

#[test]
fn units_have_their_lengths_and_suffixes() {
    assert_eq!(f(LengthUnit::Millimeter.mm_per_unit()), 1.0);
    assert_eq!(f(LengthUnit::Centimeter.mm_per_unit()), 10.0);
    assert_eq!(f(LengthUnit::Meter.mm_per_unit()), 1000.0);
    assert_eq!(f(LengthUnit::Inch.mm_per_unit()), 25.4);
    assert_eq!(LengthUnit::Inch.suffix(), "in");
    assert_eq!(LengthUnit::Millimeter.suffix(), "mm");
}

#[test]
fn themes_toggle() {
    assert_eq!(Theme::default(), Theme::Light);
    assert_eq!(Theme::Dark.toggled(), Theme::Light);
    assert_eq!(Theme::Light.toggled().toggled(), Theme::Light);
    assert!(Theme::Dark.is_dark() && !Theme::Light.is_dark());
    assert_ne!(Theme::Dark.palette(), Theme::Light.palette());
}

#[test]
fn numbers_are_ordered_as_numbers() {
    assert!(s(-1.0) < s(0.5));
    assert!(s(0.0) == s(-0.0));
    assert!(s(f64::NAN) != s(f64::NAN));
    assert!(!(s(f64::NAN) < s(1.0)) && !(s(1.0) < s(f64::NAN)));
    assert!(s(f64::NEG_INFINITY) < s(-1e300));
    assert!(s(f64::NAN).is_nan() && !s(f64::INFINITY).is_nan());
    assert_eq!(f(s(-2.5).abs()), 2.5);
    assert_eq!(f(s(2.5).negated()), -2.5);
    assert_eq!(f(s(2.5).max(s(3.0))), 3.0);
    assert_eq!(f(s(f64::NAN).max(s(3.0))), 3.0);
    assert_eq!(f(s(3.0).max(s(f64::NAN))), 3.0);
    assert_eq!(f(s(-3.0).min(s(3.0))), -3.0);
    assert_eq!(f(s(f64::NAN).min(s(-3.0))), -3.0);
    assert_eq!(Scalar::one().to_bits(), 1.0f64.to_bits());
}
