//! Sketches: editing them, drawing them, and selecting what is clicked.

use riemanifold::picking::nearest;
use riemanifold::scalar::Scalar;
use riemanifold::selection::{toggle, Pick, Selection};
use riemanifold::session::{CanvasClick, ConstraintButton, SketchSession, SketchTool};
use riemanifold::sketch::{Constraint, LineId, PointId, ProfileElem, SketchPlane};
use riemanifold::sketch2d::Sketch2d;

fn s(v: f64) -> Scalar {
    Scalar::from_bits(v.to_bits())
}

fn f(v: Scalar) -> f64 {
    f64::from_bits(v.to_bits())
}

fn at(p: [Scalar; 2]) -> [f64; 2] {
    [f(p[0]), f(p[1])]
}

/// A closed square loop of 4 points.
fn square() -> Sketch2d {
    let mut sk = Sketch2d::new();
    let p: Vec<PointId> = [(0.0, 0.0), (10.0, 0.0), (10.0, 10.0), (0.0, 10.0)]
        .iter()
        .map(|&(x, y)| sk.add_point(s(x), s(y)))
        .collect();
    for i in 0..4 {
        sk.add_line(p[i], p[(i + 1) % 4]);
    }
    sk
}

/// Replace a line by a cubic with its handles a third of the way in.
fn curve_line(sk: &mut Sketch2d, line: LineId) -> bool {
    let (a, b) = match sk.line_ends(line) {
        Some(ends) => ends,
        None => return false,
    };
    let between = |t: f64| {
        [s(f(a.x) + (f(b.x) - f(a.x)) * t), s(f(a.y) + (f(b.y) - f(a.y)) * t)]
    };
    sk.curve_line(line, between(1.0 / 3.0), between(2.0 / 3.0))
}

/// Mirror a handle through its node onto the other cubics there.
fn mirror_partner_handle(sk: &mut Sketch2d, bez: usize, is_c1: bool) {
    if let Some((_, node, handle)) = sk.handle_node(bez, is_c1) {
        let mirrored =
            [s(2.0 * f(node.x) - f(handle[0])), s(2.0 * f(node.y) - f(handle[1]))];
        sk.mirror_partner_handle(bez, is_c1, mirrored);
    }
}

#[test]
fn split_line_inserts_a_vertex_keeping_the_loop_closed() {
    let mut sk = square();
    let n_pts = sk.points.len();
    let new = sk.split_line(LineId(0), s(5.0), s(0.0)).unwrap();
    assert_eq!(new.0, n_pts, "new point appended");
    assert_eq!(sk.points.len(), 5);
    assert_eq!(sk.lines.len(), 5, "one line became two");
    assert_eq!(sk.loop_order().unwrap().len(), 5);
}

#[test]
fn delete_points_reconnects_the_loop() {
    let mut sk = square();
    let to_remove = sk.loop_order().unwrap()[1];
    assert!(sk.delete_points(&[to_remove]));
    assert_eq!(sk.points.len(), 3, "a triangle remains");
    assert_eq!(sk.lines.len(), 3);
    assert!(sk.loop_order().is_some(), "still one closed loop");
}

#[test]
fn curve_line_replaces_a_segment_with_a_bezier() {
    let mut sk = square();
    let n_lines = sk.lines.len();
    assert!(curve_line(&mut sk, LineId(0)));
    assert_eq!(sk.lines.len(), n_lines - 1, "the straight line is gone");
    assert_eq!(sk.beziers.len(), 1, "replaced by a bezier");
    let elems = sk.profile_elements().unwrap();
    assert_eq!(elems.len(), 4);
    assert_eq!(elems.iter().filter(|e| matches!(e, ProfileElem::Bezier { .. })).count(), 1);
    assert!(!curve_line(&mut sk, LineId(9)));
}

#[test]
fn mirror_partner_handle_makes_a_smooth_node() {
    let mut sk = Sketch2d::new();
    let a = sk.add_point(s(0.0), s(0.0));
    let n = sk.add_point(s(10.0), s(0.0));
    let c = sk.add_point(s(20.0), s(0.0));
    sk.add_bezier(a, n, [s(3.0), s(0.0)], [s(7.0), s(4.0)]);
    sk.add_bezier(n, c, [s(13.0), s(0.0)], [s(17.0), s(0.0)]);

    mirror_partner_handle(&mut sk, 0, false);
    assert_eq!(at(sk.beziers[1].c1), [13.0, -4.0], "handle mirrored through the node");
}

#[test]
fn profile_elements_walks_lines_and_beziers() {
    let mut sk = Sketch2d::new();
    let p: Vec<PointId> = [(0.0, 0.0), (20.0, 0.0), (20.0, 20.0), (0.0, 20.0)]
        .iter()
        .map(|&(x, y)| sk.add_point(s(x), s(y)))
        .collect();
    sk.add_bezier(p[0], p[1], [s(5.0), s(-5.0)], [s(15.0), s(-5.0)]);
    sk.add_line(p[1], p[2]);
    sk.add_line(p[2], p[3]);
    sk.add_line(p[3], p[0]);

    let elems = sk.profile_elements().unwrap();
    assert_eq!(elems.len(), 4);
    let beziers = elems.iter().filter(|e| matches!(e, ProfileElem::Bezier { .. })).count();
    assert_eq!(beziers, 1, "one bezier segment in the loop");
    for i in 0..4 {
        let end = match elems[i] {
            ProfileElem::Line { b, .. } | ProfileElem::Bezier { b, .. } => b,
        };
        assert_eq!(at(end), at(elems[(i + 1) % 4].start()), "continuity at {i}");
    }
}

#[test]
fn delete_keeps_at_least_a_triangle() {
    let mut sk = square();
    let order = sk.loop_order().unwrap();
    assert!(!sk.delete_points(&[order[0], order[1]]));
    assert_eq!(sk.points.len(), 4, "unchanged");
}

#[test]
fn a_cubic_entered_from_its_far_end_is_turned_round() {
    let mut sk = Sketch2d::new();
    let p: Vec<PointId> = [(0.0, 0.0), (9.0, 0.0), (0.0, 9.0)]
        .iter()
        .map(|&(x, y)| sk.add_point(s(x), s(y)))
        .collect();
    sk.add_line(p[0], p[1]);
    sk.add_line(p[2], p[0]);
    sk.add_bezier(p[2], p[1], [s(1.0), s(8.0)], [s(8.0), s(1.0)]);
    let elems = sk.profile_elements().unwrap();
    match elems[1] {
        ProfileElem::Bezier { a, c1, c2, b } => {
            assert_eq!(at(a), [9.0, 0.0]);
            assert_eq!(at(c1), [8.0, 1.0]);
            assert_eq!(at(c2), [1.0, 8.0]);
            assert_eq!(at(b), [0.0, 9.0]);
        }
        _ => panic!("the second segment is the cubic"),
    }
}

#[test]
fn open_chains_are_paths_and_loops_are_not() {
    let mut sk = Sketch2d::new();
    let p: Vec<PointId> = [(0.0, 0.0), (5.0, 0.0), (5.0, 5.0)]
        .iter()
        .map(|&(x, y)| sk.add_point(s(x), s(y)))
        .collect();
    sk.add_line(p[1], p[2]);
    sk.add_line(p[1], p[0]);
    let path = sk.path_elements().unwrap();
    assert_eq!(path.len(), 2);
    assert_eq!(at(path[0].start()), [5.0, 5.0]);
    assert!(sk.profile_loop().is_none());
    assert!(square().path_elements().is_none());
    let corners: Vec<[f64; 2]> = square().profile_loop().unwrap().iter().map(|p| at(*p)).collect();
    assert_eq!(corners, vec![[0.0, 0.0], [10.0, 0.0], [10.0, 10.0], [0.0, 10.0]]);
}

#[test]
fn planes_have_frames() {
    assert_eq!(SketchPlane::Xz.label(), "XZ");
    let o = SketchPlane::Yz.origin();
    assert_eq!((f(o.x), f(o.y), f(o.z)), (0.0, 0.0, 0.0));
    let x = SketchPlane::Yz.x_dir();
    assert_eq!((f(x.x), f(x.y), f(x.z)), (0.0, 1.0, 0.0));
    let custom = SketchPlane::from_frame(o, x, x);
    assert_eq!(f(custom.y_dir().y), 1.0);
    assert!(custom == custom && custom != SketchPlane::Xy);
}

#[test]
fn selecting_a_planar_face_enables_sketch_on_face() {
    let mut sel = Selection::default();
    assert!(!sel.can_sketch_on_face());

    sel.select(Some(Pick::Face(2)), false, Some(SketchPlane::Xy));
    assert_eq!(sel.primary(), Some(Pick::Face(2)));
    assert!(sel.can_sketch_on_face());

    sel.select(Some(Pick::Edge(5)), false, None);
    assert!(!sel.can_sketch_on_face());
    assert!(sel.is_edges());

    sel.clear();
    assert!(sel.is_empty() && sel.hovered.is_none());
}

#[test]
fn additive_click_builds_and_toggles_a_homogeneous_set() {
    let mut sel = Selection::default();
    sel.select(Some(Pick::Edge(1)), false, None);
    sel.select(Some(Pick::Edge(2)), true, None);
    sel.select(Some(Pick::Edge(3)), true, None);
    assert_eq!(sel.selected(), &[Pick::Edge(1), Pick::Edge(2), Pick::Edge(3)]);

    sel.select(Some(Pick::Edge(2)), true, None);
    assert_eq!(sel.selected(), &[Pick::Edge(1), Pick::Edge(3)]);

    sel.select(Some(Pick::Edge(9)), false, None);
    assert_eq!(sel.selected(), &[Pick::Edge(9)]);

    sel.select(Some(Pick::Face(4)), true, Some(SketchPlane::Xy));
    assert_eq!(sel.selected(), &[Pick::Face(4)]);
    assert!(sel.can_sketch_on_face());
}

#[test]
fn additive_on_empty_space_keeps_the_set() {
    let mut sel = Selection::default();
    sel.select(Some(Pick::Edge(1)), false, None);
    sel.select(None, true, None);
    assert_eq!(sel.selected(), &[Pick::Edge(1)]);
    sel.select(None, false, None);
    assert!(sel.is_empty());
}

#[test]
fn additive_on_empty_space_keeps_the_faces_plane() {
    let mut sel = Selection::default();
    sel.select(Some(Pick::Face(2)), false, Some(SketchPlane::Xy));
    sel.select(None, true, None);
    assert_eq!(sel.selected(), &[Pick::Face(2)]);
    assert!(sel.can_sketch_on_face());
    assert_eq!(sel.face_plane, Some(SketchPlane::Xy));
    sel.select(None, false, None);
    assert!(sel.is_empty() && !sel.can_sketch_on_face());
}

#[test]
fn the_face_left_has_its_own_plane() {
    let mut sel = Selection::default();
    sel.select(Some(Pick::Face(1)), false, Some(SketchPlane::Xy));
    sel.select(Some(Pick::Face(2)), true, Some(SketchPlane::Yz));
    assert!(!sel.can_sketch_on_face(), "two faces");
    sel.select(Some(Pick::Face(2)), true, Some(SketchPlane::Yz));
    assert_eq!(sel.selected(), &[Pick::Face(1)]);
    assert_eq!(sel.face_plane, Some(SketchPlane::Xy));
    sel.select(Some(Pick::Face(2)), true, Some(SketchPlane::Yz));
    sel.select(Some(Pick::Face(1)), true, Some(SketchPlane::Xy));
    assert_eq!(sel.face_plane, Some(SketchPlane::Yz));
    assert_eq!(sel.clone().face_plane, Some(SketchPlane::Yz));

    // A round face has no plane, and one toggled out leaves none behind.
    sel.select(Some(Pick::Face(3)), true, None);
    sel.select(Some(Pick::Face(2)), true, Some(SketchPlane::Yz));
    assert_eq!(sel.selected(), &[Pick::Face(3)]);
    assert!(!sel.can_sketch_on_face());
    assert!(sel.planes.is_empty());
}

#[test]
fn toggling_takes_the_first_or_adds_at_the_end() {
    let mut items = vec![PointId(1), PointId(2), PointId(1)];
    toggle(&mut items, PointId(1));
    assert_eq!(items, vec![PointId(2), PointId(1)]);
    toggle(&mut items, PointId(3));
    assert_eq!(items, vec![PointId(2), PointId(1), PointId(3)]);
}

#[test]
fn the_nearest_wins_and_the_first_of_equals() {
    let items = vec![(s(9.0), 'a'), (s(3.0), 'b'), (s(3.0), 'c'), (s(f64::NAN), 'd')];
    assert_eq!(nearest(s(10.0), &items), Some('b'));
    assert_eq!(nearest(s(3.0), &items), None);
}

#[test]
fn drawing_a_triangle_closes_into_a_profile() {
    let mut session = SketchSession::new(SketchPlane::Xy);
    for (u, v) in [(0.0, 0.0), (8.0, 0.0), (0.0, 6.0)] {
        session.add_point(s(u), s(v));
    }
    assert_eq!(session.sketch.lines.len(), 2);
    assert!(session.sketch.profile_loop().is_none());
    session.close_loop();
    assert!(session.closed && session.tool == SketchTool::Select);
    let corners: Vec<[f64; 2]> =
        session.sketch.profile_loop().unwrap().iter().map(|p| at(*p)).collect();
    assert_eq!(corners, vec![[0.0, 0.0], [8.0, 0.0], [0.0, 6.0]]);
}

#[test]
fn a_click_near_the_start_closes_the_loop() {
    let mut session = SketchSession::new(SketchPlane::Xy);
    let place = Some([s(1.0), s(2.0)]);
    assert!(matches!(session.canvas_click(None, place), CanvasClick::AddPoint(_)));
    session.add_point(s(0.0), s(0.0));
    session.add_point(s(8.0), s(0.0));
    assert!(
        matches!(session.canvas_click(Some(s(2.0)), place), CanvasClick::AddPoint(_)),
        "one line cannot close"
    );
    session.add_point(s(0.0), s(6.0));
    assert!(matches!(session.canvas_click(Some(s(9.9)), place), CanvasClick::CloseLoop));
    assert!(matches!(session.canvas_click(Some(s(10.0)), place), CanvasClick::AddPoint(_)));
    assert!(matches!(session.canvas_click(Some(s(10.0)), None), CanvasClick::Nothing));
    session.close_loop();
    assert!(matches!(session.canvas_click(Some(s(2.0)), place), CanvasClick::Pick));
    session.set_tool(SketchTool::Line);
    assert!(
        matches!(session.canvas_click(Some(s(2.0)), place), CanvasClick::AddPoint(_)),
        "a closed loop is not closed again"
    );
}

#[test]
fn clicks_select_points_before_lines() {
    let mut session = SketchSession::new(SketchPlane::Xy);
    for (u, v) in [(0.0, 0.0), (8.0, 0.0), (0.0, 6.0)] {
        session.add_point(s(u), s(v));
    }
    session.close_loop();
    let far = vec![(s(30.0), PointId(0)), (s(40.0), PointId(1))];
    let near = vec![(s(30.0), PointId(0)), (s(9.0), PointId(1))];
    let lines = vec![(s(7.0), LineId(2)), (s(3.0), LineId(1))];
    session.pick_entity(&near, &lines);
    assert_eq!(session.selected_points, vec![PointId(1)]);
    assert!(session.selected_lines.is_empty());
    session.pick_entity(&far, &lines);
    assert_eq!(session.selected_lines, vec![LineId(1)]);
    session.pick_entity(&near, &lines);
    assert!(session.selected_points.is_empty(), "clicked again, deselected");
    session.pick_entity(&far, &vec![(s(8.0), LineId(0))]);
    assert!(session.selected_lines.is_empty(), "a click on nothing clears");
}

#[test]
fn buttons_offer_what_fits_the_selection() {
    let mut session = SketchSession::new(SketchPlane::Xy);
    for (u, v) in [(0.0, 0.0), (8.0, 0.0), (0.0, 6.0)] {
        session.add_point(s(u), s(v));
    }
    session.close_loop();
    let all = [
        ConstraintButton::Horizontal,
        ConstraintButton::Vertical,
        ConstraintButton::Perpendicular,
        ConstraintButton::Parallel,
        ConstraintButton::Equal,
        ConstraintButton::Coincident,
        ConstraintButton::Fixed,
        ConstraintButton::Distance,
    ];
    let offered = |session: &SketchSession| -> Vec<usize> {
        (0..8).filter(|&i| session.offered(all[i], s(5.0)).is_some()).collect()
    };
    assert_eq!(offered(&session), Vec::<usize>::new());
    session.selected_lines = vec![LineId(1)];
    assert_eq!(offered(&session), vec![0, 1, 7]);
    assert_eq!(session.distance_ends(), Some((PointId(1), PointId(2))));
    session.selected_lines = vec![LineId(1), LineId(0)];
    assert_eq!(offered(&session), vec![2, 3, 4]);
    assert!(matches!(
        session.offered(ConstraintButton::Equal, s(0.0)),
        Some(Constraint::EqualLength(LineId(1), LineId(0)))
    ));
    session.selected_lines.clear();
    session.selected_points = vec![PointId(0)];
    assert_eq!(offered(&session), vec![6]);
    session.selected_points = vec![PointId(0), PointId(2)];
    assert_eq!(offered(&session), vec![5, 7]);
    match session.offered(ConstraintButton::Distance, s(5.0)) {
        Some(Constraint::Distance(a, b, d)) => {
            assert_eq!((a, b, f(d)), (PointId(0), PointId(2), 5.0));
        }
        _ => panic!("a distance is offered"),
    }
    session.apply(Constraint::Fixed(PointId(0)));
    assert_eq!(session.sketch.constraints.len(), 1);
    assert!(session.selected_points.is_empty());
}

#[test]
fn the_toolbar_tells_the_freedom_left() {
    let mut session = SketchSession::new(SketchPlane::Xy);
    assert_eq!(session.status_text(), "fully constrained");
    session.add_point(s(1.0), s(2.0));
    session.solved(&vec![s(3.0), s(4.0)], 2);
    assert_eq!(session.status_text(), "2 dof");
    assert_eq!(f(session.sketch.points[0].x), 3.0);
    assert!(session.hint().starts_with("Line:"));
    session.set_tool(SketchTool::Select);
    assert!(session.hint().starts_with("Select:"));
}

#[test]
fn an_additive_click_twice_changes_nothing() {
    let mut sel = Selection::default();
    sel.select(Some(Pick::Edge(1)), false, None);
    sel.select(Some(Pick::Edge(2)), true, None);
    sel.select(Some(Pick::Edge(2)), true, None);
    assert_eq!(sel.selected(), &[Pick::Edge(1)]);
    assert_eq!(sel.clone().selected(), sel.selected());
}

#[test]
fn splitting_and_curving_keep_the_boundary() {
    let mut sk = square();
    sk.split_line(LineId(2), s(5.0), s(12.0)).unwrap();
    assert_eq!(sk.profile_elements().unwrap().len(), 5);
    assert!(curve_line(&mut sk, LineId(4)));
    let elems = sk.profile_elements().unwrap();
    assert_eq!(elems.len(), 5);
    for i in 0..5 {
        let end = match elems[i] {
            ProfileElem::Line { b, .. } | ProfileElem::Bezier { b, .. } => b,
        };
        assert_eq!(at(end), at(elems[(i + 1) % 5].start()));
    }
    assert_eq!(sk.split_line(LineId(77), s(0.0), s(0.0)), None);
}

#[test]
fn variables_pack_and_unpack() {
    let mut sk = square();
    let c = sk.add_circle(PointId(0), s(3.0));
    let vars = sk.pack();
    assert_eq!(vars.len(), 9);
    assert_eq!(f(vars[8]), 3.0);
    sk.unpack(&vars);
    assert_eq!(sk.lines.len(), 4);
    assert_eq!(f(sk.circle(c).radius), 3.0);
    assert_eq!(at([sk.point(PointId(2)).x, sk.point(PointId(2)).y]), [10.0, 10.0]);
}

#[test]
fn a_figure_of_two_loops_is_no_profile() {
    let mut sk = square();
    let p: Vec<PointId> = [(20.0, 0.0), (30.0, 0.0), (20.0, 9.0)]
        .iter()
        .map(|&(x, y)| sk.add_point(s(x), s(y)))
        .collect();
    for i in 0..3 {
        sk.add_line(p[i], p[(i + 1) % 3]);
    }
    assert!(sk.profile_loop().is_none());
    assert!(sk.profile_elements().is_none());
    assert!(sk.loop_order().is_none());
    assert!(!sk.delete_points(&[PointId(0)]));
}
