//! The mouse in the viewport, picking, and the mesh that is picked from.

use riemanifold::bounds::positions_bounds;
use riemanifold::mesh::{edge_segments, gather, interleave, interleave_edges, locate, MeshPart};
use riemanifold::picking::{
    can_hit, clamp_pixel, decode_face, in_triangle, padded_row, pixel_offset, prefer_edge, unpad,
    Highlights, SEL_EDGE_CAP,
};
use riemanifold::scalar::Scalar;
use riemanifold::selection::Pick;
use riemanifold::viewport::{
    gizmo_hit_test, push_target, snap_degrees, Action, Axis3, Button, Event, GizmoDrag,
    GizmoHandle, HandleTask, HoverTask, Modifiers, Plane3, SquareView, Viewport,
};

fn s(v: f64) -> Scalar {
    Scalar::from_bits(v.to_bits())
}

fn f(v: Scalar) -> f64 {
    f64::from_bits(v.to_bits())
}

/// A turn by `total` radians brought to the nearest step of its zone.
fn snap_rotation(total: f32, ratio: f32, free: bool) -> f32 {
    let degrees = snap_degrees(s(ratio as f64), free);
    if degrees == 0 {
        return total;
    }
    let step = degrees as f32 * std::f32::consts::PI / 180.0;
    (total / step).round() * step
}

#[test]
fn rotation_snaps_by_radial_zone() {
    let deg = |d: f32| d * std::f32::consts::PI / 180.0;
    assert!((snap_rotation(deg(40.0), 1.0, false) - deg(45.0)).abs() < 1e-4);
    assert!((snap_rotation(deg(40.0), 2.5, false) - deg(40.0)).abs() < 1e-4);
    assert!((snap_rotation(deg(41.3), 4.0, false) - deg(41.3)).abs() < 1e-4);
    assert!((snap_rotation(deg(40.0), 1.0, true) - deg(40.0)).abs() < 1e-4);
}

#[test]
fn snap_zones_end_where_they_should() {
    let at = |r: f64| snap_degrees(s(r), false);
    assert_eq!((at(0.0), at(1.24), at(1.25)), (45, 45, 15));
    assert_eq!((at(1.99), at(2.0), at(2.99), at(3.0)), (15, 5, 5, 0));
    assert_eq!(at(f64::NAN), 0);
}

#[test]
fn planes_know_their_axes() {
    assert_eq!(Plane3::Xy.axes(), (Axis3::X, Axis3::Y));
    assert_eq!(Plane3::Yz.axes(), (Axis3::Y, Axis3::Z));
    assert_eq!(Plane3::Zx.normal(), Axis3::Y);
    assert_eq!(Axis3::Y.perps(), (Axis3::Z, Axis3::X));
}

type Mouse = Viewport<(i32, i32), &'static str, u8>;

fn moved(x: i32, travel: f64) -> Event<(i32, i32)> {
    Event::Moved { position: (x, 0), travel: Some(s(travel)) }
}

fn left(down: bool) -> Event<(i32, i32)> {
    Event::Button { button: Button::Left, down }
}

#[test]
fn a_press_in_place_selects() {
    let mut v: Mouse = Viewport::new((0, 0));
    assert!(matches!(v.handle(left(true), false, true).action, Action::Press));
    v.press(None);
    assert!(v.orbiting);
    assert!(matches!(v.handle(moved(3, 3.0), false, true).action, Action::Nothing));
    let reply = v.handle(left(false), false, true);
    assert!(matches!(reply.action, Action::Select) && reply.redraw);
    assert!(!v.orbiting && v.left_press.is_none());
}

#[test]
fn a_drag_on_nothing_orbits() {
    let mut v: Mouse = Viewport::new((0, 0));
    v.handle(left(true), false, true);
    v.press(None);
    v.handle(moved(5, 5.0), false, true);
    assert!(v.dragged);
    match v.handle(moved(9, 9.0), false, true).action {
        Action::Orbit { from, to } => assert_eq!((from, to), ((5, 0), (9, 0))),
        _ => panic!("the camera orbits"),
    }
    assert!(matches!(v.handle(left(false), false, true).action, Action::Nothing));
}

#[test]
fn a_drag_on_a_face_pushes_it() {
    let mut v: Mouse = Viewport::new((0, 0));
    v.handle(left(true), false, true);
    v.press(Some(7));
    assert!(!v.orbiting);
    assert!(matches!(v.handle(moved(4, 4.0), false, true).action, Action::Nothing));
    match v.handle(moved(5, 4.1), false, true).action {
        Action::UpdateManipulation { axis } => assert_eq!(axis, 7),
        _ => panic!("the face is pushed"),
    }
    v.applied(true);
    assert!(matches!(v.handle(left(false), false, true).action, Action::FinishManipulation));
    assert!(v.take_mesh_request(false));
    assert!(!v.take_mesh_request(false));
}

#[test]
fn a_grabbed_handle_holds_the_camera() {
    let mut v: Mouse = Viewport::new((0, 0));
    v.handle(left(true), false, true);
    v.grab(GizmoDrag { handle: GizmoHandle::RotateAxis(Axis3::Z), detail: "grab" });
    v.handle(Event::Button { button: Button::Right, down: true }, false, true);
    assert!(matches!(v.handle(moved(2, 2.0), false, true).action, Action::Nothing));
    assert_eq!(v.turning(), None);
    assert!(matches!(v.handle(moved(8, 8.0), false, true).action, Action::UpdateTransform));
    v.drag_to("on");
    assert_eq!(v.turning(), Some((Axis3::Z, "on")));
    assert_eq!(v.handle_task(true), HandleTask::Show(GizmoHandle::RotateAxis(Axis3::Z)));
    let reply = v.handle(left(false), false, true);
    assert!(matches!(reply.action, Action::FinishTransform { commit: true }));
    assert_eq!(v.handle_task(true), HandleTask::Hide);
    assert_eq!(v.handle_task(false), HandleTask::Look);
}

#[test]
fn a_handle_clicked_in_place_is_not_kept() {
    let mut v: Mouse = Viewport::new((0, 0));
    v.grab(GizmoDrag { handle: GizmoHandle::TranslatePlane(Plane3::Xy), detail: "" });
    let reply = v.handle(left(false), false, true);
    assert!(matches!(reply.action, Action::FinishTransform { commit: false }));
    assert!(!reply.redraw && !v.mesh_dirty);
}

#[test]
fn the_panels_come_first() {
    let mut v: Mouse = Viewport::new((0, 0));
    assert!(matches!(v.handle(left(true), true, true).action, Action::Nothing));
    assert!(matches!(v.handle(Event::Wheel, true, true).action, Action::Nothing));
    assert!(!v.hover_dirty);
    assert!(matches!(v.handle(Event::Pinch, false, true).action, Action::Zoom));
    assert_eq!(v.take_hover(true, true), HoverTask::Clear);
    assert_eq!(v.take_hover(true, false), HoverTask::Keep);
    v.handle(moved(1, 0.0), true, true);
    assert_eq!(v.cursor, (1, 0));
    assert_eq!(v.take_hover(true, false), HoverTask::Look);
    v.hover_dirty = true;
    assert_eq!(v.take_hover(false, false), HoverTask::Clear);
}

#[test]
fn the_middle_button_pans_and_the_right_one_orbits() {
    let mut v: Mouse = Viewport::new((0, 0));
    v.handle(Event::Button { button: Button::Middle, down: true }, false, true);
    v.handle(moved(1, 0.0), false, true);
    assert!(matches!(v.handle(moved(2, 0.0), false, true).action, Action::Pan { .. }));
    v.handle(Event::Button { button: Button::Middle, down: false }, false, true);
    assert_eq!(v.last, None);
    v.handle(Event::Button { button: Button::Right, down: true }, false, true);
    v.handle(moved(1, 0.0), false, true);
    assert!(matches!(v.handle(moved(2, 0.0), false, true).action, Action::Orbit { .. }));
    v.handle(Event::Button { button: Button::Right, down: false }, false, true);
    assert!(matches!(v.handle(moved(3, 0.0), false, true).action, Action::Nothing));
    v.handle(Event::Button { button: Button::Other, down: true }, false, true);
    assert!(!v.orbiting && !v.panning);
}

#[test]
fn the_window_is_resized_and_closed() {
    let mut v: Mouse = Viewport::new((0, 0));
    let size = |width, height| Event::Resized { width, height };
    let reply = v.handle(size(640, 480), false, true);
    assert!(matches!(reply.action, Action::Resize { width: 640, height: 480 }) && reply.redraw);
    assert!(matches!(v.handle(size(0, 480), false, true).action, Action::Nothing));
    assert!(matches!(v.handle(Event::Close, false, true).action, Action::Exit));
    assert!(matches!(v.handle(Event::Draw, false, true).action, Action::Draw));
    assert!(matches!(v.handle(Event::Other, false, true).action, Action::Nothing));
    assert!(!v.additive());
    v.handle(Event::Keys(Modifiers { shift: false, command: true, alt: false }), false, true);
    assert!(v.additive());
    assert_eq!(push_target(Some(Pick::Face(1)), Some(3)), Some((Pick::Face(1), 3)));
    assert_eq!(push_target(None, Some(3)), None);
}

#[test]
fn squares_are_grabbed_before_arrows_before_rings() {
    let inside = [s(1.0), s(2.0), s(0.0)];
    let outside = [s(1.0), s(-2.0), s(0.5)];
    let hit = SquareView { plane: Plane3::Yz, first: outside, second: inside };
    let miss = SquareView { plane: Plane3::Xy, first: outside, second: outside };
    let arrows = vec![(s(12.0), Axis3::X), (s(4.0), Axis3::Y)];
    let rings = vec![(s(1.0), Axis3::Z)];
    let none: Vec<(Scalar, Axis3)> = Vec::new();
    assert_eq!(
        gizmo_hit_test(&vec![miss, hit], true, &arrows, &rings),
        Some(GizmoHandle::TranslatePlane(Plane3::Yz))
    );
    assert_eq!(
        gizmo_hit_test(&vec![miss], true, &arrows, &rings),
        Some(GizmoHandle::TranslateAxis(Axis3::Y))
    );
    assert_eq!(
        gizmo_hit_test(&vec![miss], true, &none, &rings),
        Some(GizmoHandle::RotateAxis(Axis3::Z))
    );
    assert_eq!(gizmo_hit_test(&vec![miss], false, &arrows, &rings), None);
    assert_eq!(gizmo_hit_test(&Vec::new(), true, &none, &none), None);
    assert!(in_triangle(s(0.0), s(0.0), s(0.0)) && !in_triangle(s(-1.0), s(0.0), s(1.0)));
}

#[test]
fn boxes_hold_their_points() {
    let flat: Vec<Scalar> =
        [1.0, 5.0, -2.0, 4.0, 0.0, 3.0, f64::NAN, 2.0, 2.0].iter().map(|&v| s(v)).collect();
    let (min, max) = positions_bounds(&flat);
    assert_eq!((f(min.x), f(min.y), f(min.z)), (1.0, 0.0, -2.0));
    assert_eq!((f(max.x), f(max.y), f(max.z)), (4.0, 5.0, 3.0));
    let (min, max) = positions_bounds(&[]);
    assert_eq!((f(min.x), f(max.z)), (0.0, 0.0));
}

/// A part with one triangle per face id, and one edge per edge id.
fn part(faces: &[u32], edges: &[u32]) -> MeshPart<f32> {
    let mut p = MeshPart {
        positions: Vec::new(),
        normals: Vec::new(),
        indices: Vec::new(),
        face_ids: Vec::new(),
        edge_positions: Vec::new(),
        edge_indices: Vec::new(),
        edge_ids: Vec::new(),
    };
    for (i, face) in faces.iter().enumerate() {
        for k in 0..3u32 {
            p.positions.extend([k as f32, i as f32, 0.0]);
            p.normals.extend([0.0, 0.0, 1.0]);
            p.face_ids.push(*face);
            p.indices.push(3 * i as u32 + k);
        }
    }
    for (i, edge) in edges.iter().enumerate() {
        for k in 0..2u32 {
            p.edge_positions.extend([k as f32, i as f32, 0.0]);
            p.edge_ids.push(*edge);
            p.edge_indices.push(2 * i as u32 + k);
        }
    }
    p
}

#[test]
fn bodies_are_numbered_apart_and_found_again() {
    let parts: Vec<Result<MeshPart<f32>, String>> = vec![
        Ok(part(&[0, 1, 2], &[0, 4])),
        Err("no mesh".to_string()),
        Ok(part(&[0, 1], &[0])),
    ];
    let a = gather(&parts).unwrap();
    assert_eq!(a.face_ranges, vec![0, 3, 3]);
    assert_eq!(a.edge_ranges, vec![0, 5, 5]);
    assert_eq!(a.mesh.vertices.len(), 15);
    assert_eq!(a.mesh.vertices[9].face_id, 3);
    assert_eq!(a.mesh.indices[9], 9);
    assert_eq!(a.mesh.edge_vertices[4].edge_id, 5);
    assert_eq!(locate(&a.face_ranges, 4), Some((2, 1)));
    assert_eq!(locate(&a.face_ranges, 2), Some((0, 2)));
    assert_eq!(locate(&a.edge_ranges, 4), Some((0, 4)));
    assert_eq!(locate(&Vec::new(), 4), None);
    let segments = edge_segments(&a.mesh.edge_vertices, &a.mesh.edge_indices);
    assert_eq!(segments.len(), 3);
    assert_eq!(segments[2].2, 5);
}

#[test]
fn too_many_faces_cannot_be_shown() {
    let parts: Vec<Result<MeshPart<f32>, String>> =
        vec![Ok(part(&[u32::MAX - 1], &[])), Ok(part(&[3], &[]))];
    assert!(gather(&parts).is_none());
}

#[test]
fn arrays_interleave_as_far_as_all_reach() {
    let v = interleave(&[1.0, 2.0, 3.0, 4.0, 5.0, 6.0], &[0.0, 0.0, 1.0, 0.0, 1.0, 0.0], &[7, 8, 9]);
    assert_eq!(v.len(), 2);
    assert_eq!(v[1].position, [4.0, 5.0, 6.0]);
    assert_eq!(v[1].normal, [0.0, 1.0, 0.0]);
    assert_eq!(v[1].face_id, 8);
    let e = interleave_edges(&[1.0, 2.0, 3.0], &[4, 5]);
    assert_eq!(e.len(), 1);
    assert_eq!(e[0].edge_id, 4);
}

#[test]
fn pixels_stay_on_the_screen_and_rows_are_padded() {
    assert_eq!(padded_row(100, 256), 512);
    assert_eq!(padded_row(64, 256), 256);
    assert_eq!(pixel_offset(3, 2, 512), 1036);
    let mapped: Vec<u8> = (0..32).collect();
    assert_eq!(unpad(&mapped, 1, 2, 16), vec![0, 1, 2, 3, 16, 17, 18, 19]);
    assert_eq!(clamp_pixel(-5, 640), 0);
    assert_eq!(clamp_pixel(639, 640), 639);
    assert_eq!(clamp_pixel(900, 640), 639);
}

#[test]
fn only_so_many_edges_are_highlighted() {
    let selected: Vec<Pick> = (0..100).map(Pick::Edge).collect();
    let block = Highlights { selected, hovered: Some(Pick::Face(3)) }.block();
    assert_eq!(block.sel_edges.len(), SEL_EDGE_CAP);
    assert_eq!(block.sel_edges[63], 63);
    assert_eq!(block.faces, [0, 0, 3, 1]);
    assert_eq!(block.edges, [64, 0, 0, 0]);
    let selected = vec![Pick::Face(5), Pick::Face(6)];
    let block = Highlights { selected, hovered: Some(Pick::Edge(2)) }.block();
    assert_eq!(block.faces, [5, 1, 0, 0]);
    assert_eq!(block.edges, [0, 0, 2, 1]);
    assert_eq!(block.sel_edges, vec![0; 64]);
}

#[test]
fn a_pick_prefers_edges_and_skips_the_background() {
    assert_eq!(decode_face(0), None);
    assert_eq!(decode_face(5), Some(4));
    assert_eq!(prefer_edge(Some(1), Some(2)), Some(Pick::Edge(1)));
    assert_eq!(prefer_edge(None, Some(2)), Some(Pick::Face(2)));
    assert_eq!(prefer_edge(None, None), None);
    assert!(can_hit(3, 9, 9, 10, 10));
    assert!(!can_hit(0, 9, 9, 10, 10) && !can_hit(3, 10, 9, 10, 10));
}
