//! The modeler over a kernel of axis-aligned blocks: every body is a list of boxes,
//! which is all these tests look at.

use riemanifold::backend::GeometryBackend;
use riemanifold::bounds::{positions_bounds, BodyBox};
use riemanifold::cache::RegenCache;
use riemanifold::descent::{max_abs, pivot, Descent, Phase, SolveOptions};
use riemanifold::document::Document;
use riemanifold::drags::{axis_get, Derived, Readout, ResizeMode, TransformDelta};
use riemanifold::features::{BooleanOp, EdgeAnchor, FaceAnchor, FeatureId, FeatureKind};
use riemanifold::kernel::{problems, KernelError};
use riemanifold::mesh::{gather, MeshData, MeshPart};
use riemanifold::modeler::{
    undo_redo_keys, Modeler, SelectionBar, SketchAction, UNDO_LIMIT,
};
use riemanifold::parts::{build_document, constraint_rectangle as rectangle_from};
use riemanifold::scalar::{DVec3, Scalar};
use riemanifold::selection::Pick;
use riemanifold::session::SketchTool;
use riemanifold::sketch::{Constraint, PointId, Profile, ProfileElem, SketchPlane};
use riemanifold::sketch2d::Sketch2d;
use riemanifold::solver::{Residual, Span};
use riemanifold::viewport::{Axis3, GizmoHandle};

fn s(v: f64) -> Scalar {
    Scalar::from_bits(v.to_bits())
}

fn f(v: Scalar) -> f64 {
    f64::from_bits(v.to_bits())
}

fn vec3(x: f64, y: f64, z: f64) -> DVec3 {
    DVec3::new(s(x), s(y), s(z))
}

fn splat(v: f64) -> DVec3 {
    DVec3::splat(s(v))
}

fn arr(v: DVec3) -> [f64; 3] {
    [f(v.x), f(v.y), f(v.z)]
}

fn from_arr(v: [f64; 3]) -> DVec3 {
    vec3(v[0], v[1], v[2])
}

fn dot(a: [f64; 3], b: [f64; 3]) -> f64 {
    a[0] * b[0] + a[1] * b[1] + a[2] * b[2]
}

fn cross(a: [f64; 3], b: [f64; 3]) -> [f64; 3] {
    [a[1] * b[2] - a[2] * b[1], a[2] * b[0] - a[0] * b[2], a[0] * b[1] - a[1] * b[0]]
}

fn minus(a: [f64; 3], b: [f64; 3]) -> [f64; 3] {
    [a[0] - b[0], a[1] - b[1], a[2] - b[2]]
}

fn normal(plane: SketchPlane) -> [f64; 3] {
    cross(arr(plane.x_dir()), arr(plane.y_dir()))
}

#[derive(Clone, Copy, Debug, PartialEq)]
struct Block {
    min: [f64; 3],
    max: [f64; 3],
}

impl Block {
    fn around(points: &[[f64; 3]]) -> Block {
        let mut b = Block { min: [f64::INFINITY; 3], max: [f64::NEG_INFINITY; 3] };
        for p in points {
            for k in 0..3 {
                b.min[k] = b.min[k].min(p[k]);
                b.max[k] = b.max[k].max(p[k]);
            }
        }
        b
    }

    fn corners(&self) -> Vec<[f64; 3]> {
        let mut out = Vec::new();
        for i in 0..8usize {
            let pick = |k: usize| if i >> k & 1 == 1 { self.max[k] } else { self.min[k] };
            out.push([pick(0), pick(1), pick(2)]);
        }
        out
    }

    fn meet(&self, other: &Block) -> Option<Block> {
        let mut b = *self;
        for k in 0..3 {
            b.min[k] = self.min[k].max(other.min[k]);
            b.max[k] = self.max[k].min(other.max[k]);
            if b.min[k] >= b.max[k] {
                return None;
            }
        }
        Some(b)
    }

    /// What is left of this block outside the other.
    fn without(&self, other: &Block) -> Vec<Block> {
        let hole = match self.meet(other) {
            None => return vec![*self],
            Some(hole) => hole,
        };
        let mut rest = *self;
        let mut out = Vec::new();
        for k in 0..3 {
            if rest.min[k] < hole.min[k] {
                let mut piece = rest;
                piece.max[k] = hole.min[k];
                out.push(piece);
                rest.min[k] = hole.min[k];
            }
            if hole.max[k] < rest.max[k] {
                let mut piece = rest;
                piece.min[k] = hole.max[k];
                out.push(piece);
                rest.max[k] = hole.max[k];
            }
        }
        out
    }
}

/// Blocks, and the normal of a planar profile.
#[derive(Clone, Debug, PartialEq)]
struct Solid {
    blocks: Vec<Block>,
    normal: [f64; 3],
}

type Built = Result<Solid, KernelError>;

fn solid(blocks: Vec<Block>) -> Built {
    Ok(Solid { blocks, normal: [0.0; 3] })
}

#[derive(Default)]
struct Blocks;

impl Blocks {
    fn face(&self, plane: SketchPlane, points: &[[f64; 2]]) -> Built {
        let (o, x, y) = (arr(plane.origin()), arr(plane.x_dir()), arr(plane.y_dir()));
        let places: Vec<[f64; 3]> = points
            .iter()
            .map(|p| {
                let at = |k: usize| o[k] + x[k] * p[0] + y[k] * p[1];
                [at(0), at(1), at(2)]
            })
            .collect();
        Ok(Solid { blocks: vec![Block::around(&places)], normal: normal(plane) })
    }

    fn mapped(&self, body: &Solid, map: &dyn Fn([f64; 3]) -> [f64; 3]) -> Built {
        let blocks = body
            .blocks
            .iter()
            .map(|b| Block::around(&b.corners().iter().map(|c| map(*c)).collect::<Vec<_>>()))
            .collect();
        Ok(Solid { blocks, normal: body.normal })
    }
}

impl GeometryBackend for Blocks {
    type Body = Solid;
    type Error = KernelError;

    fn make_box(&mut self, size: DVec3) -> Built {
        solid(vec![Block { min: [0.0; 3], max: arr(size) }])
    }
    fn make_cylinder(&mut self, radius: Scalar, height: Scalar) -> Built {
        let r = f(radius);
        solid(vec![Block { min: [-r, -r, 0.0], max: [r, r, f(height)] }])
    }
    fn make_sphere(&mut self, radius: Scalar) -> Built {
        let r = f(radius);
        solid(vec![Block { min: [-r; 3], max: [r; 3] }])
    }
    fn sketch(&mut self, plane: SketchPlane, profile: Profile) -> Built {
        let (w, h) = match profile {
            Profile::Rectangle { width, height } => (f(width) / 2.0, f(height) / 2.0),
            Profile::Circle { radius } => (f(radius), f(radius)),
        };
        self.face(plane, &[[-w, -h], [w, h]])
    }
    fn sketch_loop(&mut self, plane: SketchPlane, points: &[[Scalar; 2]]) -> Built {
        let places: Vec<[f64; 2]> = points.iter().map(|p| [f(p[0]), f(p[1])]).collect();
        self.face(plane, &places)
    }
    fn sketch_profile(&mut self, _plane: SketchPlane, _elements: &[ProfileElem]) -> Built {
        Err(KernelError("no curves".to_string()))
    }
    fn extrude(&mut self, profile: &Solid, distance: Scalar) -> Built {
        let way = profile.normal.map(|c| c * f(distance));
        let mut blocks = Vec::new();
        for b in &profile.blocks {
            let mut corners = b.corners();
            for c in b.corners() {
                corners.push([c[0] + way[0], c[1] + way[1], c[2] + way[2]]);
            }
            blocks.push(Block::around(&corners));
        }
        solid(blocks)
    }
    fn revolve(&mut self, _profile: &Solid, _axis: DVec3, _angle: Scalar) -> Built {
        Err(KernelError("no turning".to_string()))
    }
    fn translate(&mut self, body: &Solid, offset: DVec3) -> Built {
        let o = arr(offset);
        self.mapped(body, &|c| [c[0] + o[0], c[1] + o[1], c[2] + o[2]])
    }
    fn boolean(&mut self, op: BooleanOp, target: &Solid, tool: &Solid) -> Built {
        let mut blocks = target.blocks.clone();
        match op {
            BooleanOp::Union => blocks.extend(tool.blocks.iter().copied()),
            BooleanOp::Subtract => {
                for t in &tool.blocks {
                    blocks = blocks.iter().flat_map(|b| b.without(t)).collect();
                }
            }
            BooleanOp::Intersect => {
                blocks = blocks
                    .iter()
                    .flat_map(|b| tool.blocks.iter().filter_map(|t| b.meet(t)))
                    .collect();
            }
        }
        solid(blocks)
    }
    fn fillet_all(&mut self, body: &Solid, _radius: Scalar) -> Built {
        Ok(body.clone())
    }
    fn fillet_edges(&mut self, body: &Solid, _anchors: &[EdgeAnchor], _radius: Scalar) -> Built {
        Ok(body.clone())
    }
    fn push_pull(&mut self, body: &Solid, anchor: FaceAnchor, distance: Scalar) -> Built {
        let (p, n, d) = (arr(anchor.point), arr(anchor.normal), f(distance));
        let mut out = body.clone();
        for b in &mut out.blocks {
            for k in 0..3 {
                if n[k] > 0.5 && (b.max[k] - p[k]).abs() < 1e-6 {
                    b.max[k] += d;
                }
                if n[k] < -0.5 && (b.min[k] - p[k]).abs() < 1e-6 {
                    b.min[k] -= d;
                }
            }
        }
        Ok(out)
    }
    fn rotate(&mut self, body: &Solid, center: DVec3, axis: DVec3, angle: Scalar) -> Built {
        let (c, n, a) = (arr(center), arr(axis), f(angle));
        self.mapped(body, &|p| {
            let v = minus(p, c);
            let w = cross(n, v);
            let along = dot(n, v) * (1.0 - a.cos());
            let at = |k: usize| c[k] + v[k] * a.cos() + w[k] * a.sin() + n[k] * along;
            [at(0), at(1), at(2)]
        })
    }
    fn scale(&mut self, body: &Solid, factors: DVec3, anchor: DVec3) -> Built {
        let (q, a) = (arr(factors), arr(anchor));
        self.mapped(body, &|p| {
            let at = |k: usize| a[k] + (p[k] - a[k]) * q[k];
            [at(0), at(1), at(2)]
        })
    }
    fn mirror(&mut self, body: &Solid, origin: DVec3, normal: DVec3) -> Built {
        let (o, n) = (arr(origin), arr(normal));
        self.mapped(body, &|p| {
            let d = 2.0 * dot(minus(p, o), n);
            [p[0] - d * n[0], p[1] - d * n[1], p[2] - d * n[2]]
        })
    }
    fn compound(&mut self, members: &[&Solid]) -> Built {
        solid(members.iter().flat_map(|m| m.blocks.iter().copied()).collect())
    }
    fn sweep(&mut self, _profile: &Solid, _plane: SketchPlane, _path: &[ProfileElem]) -> Built {
        Err(KernelError("no sweeping".to_string()))
    }
}

/// The six faces of a block: which axis, and whether the far side.
const FACES: [(usize, bool); 6] =
    [(0, false), (0, true), (1, false), (1, true), (2, false), (2, true)];

fn tessellate(body: &Solid) -> Result<MeshPart<f32>, KernelError> {
    if body.blocks.is_empty() {
        return Err(KernelError("nothing left".to_string()));
    }
    let mut part = MeshPart {
        positions: Vec::new(),
        normals: Vec::new(),
        indices: Vec::new(),
        face_ids: Vec::new(),
        edge_positions: Vec::new(),
        edge_indices: Vec::new(),
        edge_ids: Vec::new(),
    };
    for (n, b) in body.blocks.iter().enumerate() {
        for (face, &(k, far)) in FACES.iter().enumerate() {
            let side = if far { b.max[k] } else { b.min[k] };
            let start = part.face_ids.len() as u32;
            for c in b.corners().iter().filter(|c| c[k] == side) {
                part.positions.extend(c.map(|v| v as f32));
                let mut n = [0.0f32; 3];
                n[k] = if far { 1.0 } else { -1.0 };
                part.normals.extend(n);
            }
            let count = part.positions.len() as u32 / 3 - start;
            for _ in 0..count {
                part.face_ids.push((6 * n + face) as u32);
            }
            for t in [0, 1, 2, 1, 2, 3] {
                part.indices.push(start + t.min(count - 1));
            }
        }
        for edge in 0..12u32 {
            let at = part.edge_ids.len() as u32;
            part.edge_positions.extend([0.0; 6]);
            part.edge_ids.extend([12 * n as u32 + edge; 2]);
            part.edge_indices.extend([at, at + 1]);
        }
    }
    Ok(part)
}

fn body_box(part: &MeshPart<f32>) -> BodyBox {
    let flat: Vec<Scalar> = part.positions.iter().map(|v| s(*v as f64)).collect();
    let (min, max) = positions_bounds(&flat);
    let (lo, hi) = (arr(min), arr(max));
    let extent = minus(hi, lo);
    BodyBox {
        min,
        max,
        center: vec3((lo[0] + hi[0]) * 0.5, (lo[1] + hi[1]) * 0.5, (lo[2] + hi[2]) * 0.5),
        extent: from_arr(extent),
        span: s(extent[0].max(extent[1]).max(extent[2])),
    }
}

fn length(x: &[f64], v: Span) -> f64 {
    (x[v.bx] - x[v.ax]).hypot(x[v.by] - x[v.ay])
}

fn value(r: &Residual, x: &[f64]) -> f64 {
    match *r {
        Residual::Pin { var, value } => x[var] - f(value),
        Residual::Equal { a, b } => x[a] - x[b],
        Residual::Distance { span, value } => length(x, span) - f(value),
        _ => panic!("not used here"),
    }
}

fn scalars(values: &[f64]) -> Vec<Scalar> {
    values.iter().map(|v| s(*v)).collect()
}

/// Solve a sketch in place.
fn solve_sketch(sketch: &mut Sketch2d) {
    let residuals = sketch.residuals();
    let eval = |x: &[f64]| residuals.iter().map(|r| value(r, x)).collect::<Vec<f64>>();
    let cost = |r: &[f64]| s(r.iter().map(|v| v * v).sum::<f64>());
    let mut x: Vec<f64> = sketch.pack().iter().map(|v| f(*v)).collect();
    let n = x.len();
    let mut r = eval(&x);
    let mut jac: Vec<Vec<f64>> = Vec::new();
    let mut d =
        Descent::start(SolveOptions::default(), n, r.len(), cost(&r), max_abs(&scalars(&r)));
    while d.phase != Phase::Done {
        if d.phase == Phase::Linearise {
            jac = vec![vec![0.0; n]; r.len()];
            for j in 0..n {
                let step = 1e-7 * (1.0 + x[j].abs());
                let mut xp = x.clone();
                xp[j] += step;
                for (i, v) in eval(&xp).iter().enumerate() {
                    jac[i][j] = (v - r[i]) / step;
                }
            }
            d.linearised();
            continue;
        }
        let lambda = f(d.lambda);
        let mut a = vec![vec![0.0; n + 1]; n];
        for p in 0..n {
            for q in 0..n {
                a[p][q] = jac.iter().map(|row| row[p] * row[q]).sum();
            }
            a[p][p] = a[p][p] * (1.0 + lambda) + lambda * 1e-9 + 1e-12;
            a[p][n] = -jac.iter().zip(&r).map(|(row, v)| row[p] * v).sum::<f64>();
        }
        let mut singular = false;
        for col in 0..n {
            let column: Vec<Scalar> = (col..n).map(|row| s(a[row][col])).collect();
            match pivot(&column, s(1e-15)) {
                None => {
                    singular = true;
                    break;
                }
                Some(k) => a.swap(col, col + k),
            }
            for row in 0..n {
                if row != col {
                    let factor = a[row][col] / a[col][col];
                    for k in col..=n {
                        a[row][k] -= factor * a[col][k];
                    }
                }
            }
        }
        if singular {
            d.singular(s(lambda * 4.0));
            continue;
        }
        let x_new: Vec<f64> = (0..n).map(|i| x[i] + a[i][n] / a[i][i]).collect();
        let r_new = eval(&x_new);
        let worst = max_abs(&scalars(&r_new));
        if d.step(cost(&r_new), worst, s(lambda * 0.5), s(lambda * 4.0)) {
            x = x_new;
            r = r_new;
        }
    }
    sketch.unpack(&scalars(&x));
}

/// A rectangle by constraints, its corners placed roughly.
fn constraint_rectangle(width: f64, height: f64) -> Sketch2d {
    let (hw, hh) = (width / 2.0, height / 2.0);
    rectangle_from(
        [
            [s(-hw), s(-hh)],
            [s(hw * 0.9), s(-hh * 0.8)],
            [s(hw * 1.1), s(hh * 0.9)],
            [s(-hw * 0.8), s(hh * 1.1)],
        ],
        s(width),
        s(height),
    )
}

/// The modeler with the kernel behind it.
struct Shell {
    m: Modeler,
    cache: RegenCache<Solid>,
    bodies: Vec<Solid>,
}

impl Shell {
    fn new() -> Shell {
        Shell::of(build_document(constraint_rectangle(40.0, 40.0)))
    }

    fn of(doc: Document) -> Shell {
        Shell { m: Modeler::new(doc), cache: RegenCache::new(), bodies: Vec::new() }
    }

    fn mesh(&mut self) -> MeshData<f32> {
        for feature in self.m.doc.history.features_mut() {
            if let FeatureKind::ConstraintSketch { sketch, .. } = &mut feature.kind {
                solve_sketch(sketch);
            }
        }
        let regen = self.cache.regenerate(&self.m.doc, &mut Blocks);
        let errors = problems(regen.errors(), &self.m.doc);
        let visible = regen.visible().to_vec();
        self.bodies = regen.into_visible_bodies();
        let parts: Vec<Result<MeshPart<f32>, KernelError>> =
            self.bodies.iter().map(tessellate).collect();
        let boxes: Vec<Result<BodyBox, KernelError>> =
            parts.iter().map(|p| p.as_ref().map(body_box).map_err(|e| e.clone())).collect();
        let a = gather(&parts).unwrap();
        self.m.show(visible, errors, a.face_ranges, a.edge_ranges, &boxes);
        a.mesh
    }

    fn face_plane(&self, global: u32) -> Option<SketchPlane> {
        let (i, local) = self.m.locate_face(global)?;
        let block = self.bodies.get(i)?.blocks.get(local as usize / 6)?;
        let (k, far) = FACES[local as usize % 6];
        let mut o = block.min;
        if far {
            o[k] = block.max[k];
        }
        let mut x = [0.0; 3];
        let mut y = [0.0; 3];
        x[(k + 1) % 3] = 1.0;
        y[(k + 2) % 3] = 1.0;
        Some(SketchPlane::from_frame(from_arr(o), from_arr(x), from_arr(y)))
    }

    fn on_pick(&mut self, pick: Option<Pick>, point: Option<[f64; 3]>, additive: bool) {
        let plane = match pick {
            Some(Pick::Face(g)) => self.face_plane(g),
            _ => None,
        };
        self.m.on_pick(pick, point.map(from_arr), additive, plane);
    }

    fn start_manipulation(&mut self, g: u32, point: [f64; 3], eye: [f64; 3]) -> Option<[f64; 3]> {
        let n = self.face_plane(g).map(normal);
        let facing = n.map_or(0.0, |n| dot(n, minus(eye, point)));
        self.m
            .start_manipulation(Pick::Face(g), from_arr(point), n.map(from_arr), s(facing))
            .map(|a| arr(a.normal))
    }

    fn start_resize(&mut self, _axis: Axis3) {
        let radius = self.m.selected_radius().map_or(0.0, f);
        self.m.start_resize(s(2.0 * radius));
    }

    fn update_resize(&mut self, axis: Axis3, extent: f64) -> bool {
        let (base, factor) = match self.m.resize {
            Some(r) => (f(axis_get(r.base_extent, axis)), f(axis_get(r.base_factors, axis))),
            None => (1.0, 1.0),
        };
        let target = extent.max(0.1);
        let ratio = target / base;
        let derived = Derived {
            offset: s(target - base / 2.0),
            ratio: s(ratio),
            product: s(factor * ratio.max(1e-4)),
        };
        let gap = match self.m.resize_goal(axis, s(extent), derived) {
            Some(goal) => minus(arr(goal.to), arr(goal.from)).map(f64::abs),
            None => [0.0; 3],
        };
        self.m.update_resize(axis, s(extent), derived, from_arr(gap))
    }

    fn finish_resize(&mut self, commit: bool) {
        let halved = self.m.resize.map_or(0.0, |r| f(r.base_extent.x) / 2.0);
        let gap = match self.m.resize_factors() {
            Some(q) => minus(arr(q), [1.0; 3]).map(f64::abs),
            None => [0.0; 3],
        };
        self.m.finish_resize(commit, s(halved), from_arr(gap));
    }

    fn finish_transform(&mut self, commit: bool) {
        let length = match self.m.transform_readout() {
            Some(Readout::Offset(o)) => dot(arr(o), arr(o)).sqrt(),
            _ => 0.0,
        };
        self.m.finish_transform(commit, s(length));
    }

    fn extrude_sketch(&mut self, source: FeatureId, eye: [f64; 3]) -> bool {
        let facing = match self.m.sketch_plane(source) {
            Some(plane) => dot(normal(plane), minus(eye, arr(plane.origin()))),
            None => 0.0,
        };
        self.m.extrude_sketch(source, s(facing))
    }

    fn fillet_selected_face_edges(&mut self) -> bool {
        let edges = match self.m.face_to_fillet() {
            Some((body, local)) => match self.bodies.get(body) {
                Some(solid) => {
                    let b = solid.blocks[local as usize / 6];
                    let (k, far) = FACES[local as usize % 6];
                    let mut out = Vec::new();
                    for side in [(k + 1) % 3, (k + 2) % 3] {
                        for end in [b.min[side], b.max[side]] {
                            let mut p = [0.0; 3];
                            for a in 0..3 {
                                p[a] = (b.min[a] + b.max[a]) / 2.0;
                            }
                            p[k] = if far { b.max[k] } else { b.min[k] };
                            p[side] = end;
                            out.push(EdgeAnchor { point: from_arr(p) });
                        }
                    }
                    out
                }
                None => Vec::new(),
            },
            None => Vec::new(),
        };
        self.m.fillet_selected_face_edges(edges)
    }
}

/// Axis-aligned bounds of a mesh's vertices.
fn bounds(mesh: &MeshData<f32>) -> ([f32; 3], [f32; 3]) {
    let mut min = [f32::INFINITY; 3];
    let mut max = [f32::NEG_INFINITY; 3];
    for v in &mesh.vertices {
        for a in 0..3 {
            min[a] = min[a].min(v.position[a]);
            max[a] = max[a].max(v.position[a]);
        }
    }
    (min, max)
}

fn span(mesh: &MeshData<f32>, axis: usize) -> f64 {
    let (min, max) = bounds(mesh);
    (max[axis] - min[axis]) as f64
}

fn boxed(name: &str, size: f64) -> (Shell, FeatureId) {
    let mut doc = Document::new(name);
    let b = doc.add("Box", FeatureKind::Box { size: splat(size) });
    (Shell::of(doc), b)
}

#[test]
fn full_part_regenerates_without_errors() {
    let mut m = Shell::new();
    let mesh = m.mesh();
    assert!(!mesh.indices.is_empty());
    assert!(m.m.ui.errors.is_empty());
    assert!((span(&mesh, 0) - 40.0).abs() < 0.5);
    assert!((span(&mesh, 2) - 40.0).abs() < 0.5);
}

#[test]
fn rollback_shows_the_untranslated_pin() {
    let mut m = Shell::new();
    let _ = m.mesh();
    m.m.doc.set_rollback(5);
    let rolled = m.mesh();
    assert!(m.m.ui.errors.is_empty());
    assert!(span(&rolled, 2) > 50.0, "the 60 mm pin should reach past z=50");
}

#[test]
fn editing_the_sketch_rescales_the_model() {
    let mut m = Shell::new();
    let before = span(&m.mesh(), 0);
    let sketch_id = m.m.doc.history.features()[0].id;
    m.m.doc.history.get_mut(sketch_id).unwrap().kind = FeatureKind::Sketch {
        plane: SketchPlane::Xy,
        profile: Profile::Rectangle { width: s(80.0), height: s(80.0) },
    };
    let after = span(&m.mesh(), 0);
    assert!((before - 40.0).abs() < 0.5 && (after - 80.0).abs() < 0.5);
}

#[test]
fn constraint_sketch_solves_and_extrudes_to_a_prism() {
    let mut doc = Document::new("c-prism");
    let base = doc.add(
        "Sketch",
        FeatureKind::ConstraintSketch {
            plane: SketchPlane::Xy,
            sketch: constraint_rectangle(30.0, 20.0),
        },
    );
    doc.add("Extrude", FeatureKind::Extrude { source: base, distance: s(15.0) });
    let mut m = Shell::of(doc);
    let mesh = m.mesh();
    assert!(m.m.ui.errors.is_empty());
    assert!((span(&mesh, 0) - 30.0).abs() < 0.5, "x span {}", span(&mesh, 0));
    assert!((span(&mesh, 1) - 20.0).abs() < 0.5, "y span {}", span(&mesh, 1));
    assert!((span(&mesh, 2) - 15.0).abs() < 0.5, "z span {}", span(&mesh, 2));
}

#[test]
fn sketch_on_a_custom_plane_extrudes_there() {
    let plane = SketchPlane::from_frame(
        vec3(0.0, 0.0, 20.0),
        vec3(1.0, 0.0, 0.0),
        vec3(0.0, 1.0, 0.0),
    );
    let mut doc = Document::new("on-face");
    let base = doc.add(
        "Sketch",
        FeatureKind::ConstraintSketch { plane, sketch: constraint_rectangle(20.0, 20.0) },
    );
    doc.add("Extrude", FeatureKind::Extrude { source: base, distance: s(10.0) });
    let mut m = Shell::new();
    m.m.doc = doc;
    let mesh = m.mesh();
    assert!(m.m.ui.errors.is_empty());
    let (min, max) = bounds(&mesh);
    assert!((min[2] - 20.0).abs() < 0.5, "min z {}", min[2]);
    assert!((max[2] - 30.0).abs() < 0.5, "max z {}", max[2]);
}

#[test]
fn push_pull_feature_extends_a_box() {
    let mut doc = Document::new("pp");
    let b = doc.add("Box", FeatureKind::Box { size: vec3(10.0, 10.0, 10.0) });
    doc.add(
        "Push/Pull",
        FeatureKind::PushPull {
            source: b,
            anchor: FaceAnchor { point: vec3(5.0, 5.0, 10.0), normal: vec3(0.0, 0.0, 1.0) },
            distance: s(5.0),
        },
    );
    let mut m = Shell::new();
    m.m.doc = doc;
    let mesh = m.mesh();
    assert!(m.m.ui.errors.is_empty(), "errors: {:?}", m.m.ui.errors);
    let (_min, max) = bounds(&mesh);
    assert!((max[2] - 15.0).abs() < 0.5, "max z {}", max[2]);
}

#[test]
fn push_pull_and_sketch_work_on_a_resized_body() {
    let mut doc = Document::new("ppscale");
    let b = doc.add("Box", FeatureKind::Box { size: splat(10.0) });
    let sc = doc.add(
        "Resize",
        FeatureKind::Scale { source: b, factors: vec3(2.0, 1.0, 1.0), anchor: splat(0.0) },
    );
    doc.add(
        "Push/Pull",
        FeatureKind::PushPull {
            source: sc,
            anchor: FaceAnchor { point: vec3(10.0, 5.0, 10.0), normal: vec3(0.0, 0.0, 1.0) },
            distance: s(5.0),
        },
    );
    let mut m = Shell::new();
    m.m.doc = doc;
    let mesh = m.mesh();
    assert!(
        m.m.ui.errors.is_empty(),
        "push/pull on a resized body should rebuild: {:?}",
        m.m.ui.errors
    );
    let (_min, max) = bounds(&mesh);
    assert!((max[2] - 15.0).abs() < 0.5, "top pushed to z=15, got {}", max[2]);
}

#[test]
fn gizmo_shows_on_face_selection_and_drag_moves_the_body() {
    let (mut m, _b) = boxed("one", 10.0);
    let _ = m.mesh();

    assert!(m.m.gizmo().is_none());
    m.on_pick(Some(Pick::Face(0)), None, false);
    let g = arr(m.m.gizmo().expect("gizmo on face selection"));
    assert!((g[0] - 5.0).abs() < 0.1 && (g[2] - 5.0).abs() < 0.1);

    let n0 = m.m.doc.history.len();
    m.m.start_transform(GizmoHandle::TranslateAxis(Axis3::X));
    assert!(m.m.update_transform(TransformDelta::Translate(vec3(5.0, 0.0, 0.0))));
    assert_eq!(m.m.doc.history.len(), n0 + 1);
    assert!(m.m.update_transform(TransformDelta::Translate(vec3(8.0, 0.0, 0.0))));
    assert_eq!(m.m.doc.history.len(), n0 + 1);
    m.finish_transform(true);

    let moved = m.m.doc.history.features().iter().any(|x| {
        matches!(&x.kind, FeatureKind::Translate { offset, .. } if (f(offset.x) - 8.0).abs() < 1e-6)
    });
    assert!(moved, "expected a Move with offset x=8");
    let mesh = m.mesh();
    assert!(m.m.ui.errors.is_empty(), "errors: {:?}", m.m.ui.errors);
    let (min, max) = bounds(&mesh);
    assert!((min[0] - 8.0).abs() < 0.1 && (max[0] - 18.0).abs() < 0.1, "x {min:?}..{max:?}");
}

#[test]
fn resize_grips_show_on_a_box_and_a_drag_grows_one_dimension() {
    let (mut m, _) = boxed("one", 10.0);
    let _ = m.mesh();

    assert!(m.m.resize_box().is_none());
    m.on_pick(Some(Pick::Face(0)), None, false);
    let rb = m.m.resize_box().expect("resize box on a primitive face");
    assert_eq!(arr(rb.min), [0.0; 3]);
    assert!((f(rb.max.x) - 10.0).abs() < 1e-9);

    let n0 = m.m.doc.history.len();
    let undo0 = m.m.undo.len();
    m.start_resize(Axis3::X);
    assert!(m.update_resize(Axis3::X, 25.0));
    assert!(m.update_resize(Axis3::X, 30.0));
    assert_eq!(m.m.doc.history.len(), n0, "resize edits the Box, adds no feature");
    assert_eq!(m.m.undo.len(), undo0 + 1, "the whole drag is one undo entry");
    m.finish_resize(true);

    let mesh = m.mesh();
    assert!(m.m.ui.errors.is_empty(), "errors: {:?}", m.m.ui.errors);
    let (min, max) = bounds(&mesh);
    assert!((max[0] - min[0] - 30.0).abs() < 0.1, "x span {min:?}..{max:?}");
    assert!((max[1] - min[1] - 10.0).abs() < 0.1, "y span unchanged");
}

#[test]
fn cancelled_resize_restores_the_original_size_and_undo() {
    let (mut m, id) = boxed("one", 10.0);
    let _ = m.mesh();
    m.on_pick(Some(Pick::Face(0)), None, false);

    let undo0 = m.m.undo.len();
    m.start_resize(Axis3::Z);
    assert!(m.update_resize(Axis3::Z, 40.0));
    m.finish_resize(false);

    assert_eq!(m.m.undo.len(), undo0, "the cancelled drag's undo entry is dropped");
    let restored = matches!(
        &m.m.doc.history.get(id).unwrap().kind,
        FeatureKind::Box { size } if (f(size.z) - 10.0).abs() < 1e-9
    );
    assert!(restored, "Z restored to its pre-drag value");
}

#[test]
fn resizing_a_cylinder_edits_radius_and_height_staying_circular() {
    let mut doc = Document::new("cyl");
    let c = doc.add("Cyl", FeatureKind::Cylinder { radius: s(10.0), height: s(20.0) });
    let mut m = Shell::of(doc);
    let _ = m.mesh();
    m.on_pick(Some(Pick::Face(0)), None, false);

    let n0 = m.m.doc.history.len();
    m.start_resize(Axis3::X);
    assert!(m.update_resize(Axis3::X, 25.0));
    assert_eq!(m.m.doc.history.len(), n0, "edits the Cylinder, adds no feature");
    m.finish_resize(true);
    let radius = match &m.m.doc.history.get(c).unwrap().kind {
        FeatureKind::Cylinder { radius, .. } => f(*radius),
        _ => panic!("still a cylinder"),
    };
    assert!((radius - 15.0).abs() < 1e-9, "radius now 15, got {radius}");

    let mesh = m.mesh();
    assert!(m.m.ui.errors.is_empty(), "errors: {:?}", m.m.ui.errors);
    let (min, max) = bounds(&mesh);
    let (sx, sy) = (max[0] - min[0], max[1] - min[1]);
    assert!((sx - 30.0).abs() < 0.3 && (sx - sy).abs() < 0.3, "stays circular: {sx} vs {sy}");

    m.on_pick(Some(Pick::Face(0)), None, false);
    m.start_resize(Axis3::Z);
    assert!(m.update_resize(Axis3::Z, 50.0));
    m.finish_resize(true);
    let height = match &m.m.doc.history.get(c).unwrap().kind {
        FeatureKind::Cylinder { height, .. } => f(*height),
        _ => unreachable!(),
    };
    assert!((height - 50.0).abs() < 1e-9, "height now 50, got {height}");
}

#[test]
fn resizing_a_sphere_edits_its_one_radius() {
    let mut doc = Document::new("sph");
    let ball = doc.add("Sph", FeatureKind::Sphere { radius: s(10.0) });
    let mut m = Shell::of(doc);
    let _ = m.mesh();
    m.on_pick(Some(Pick::Face(0)), None, false);

    let n0 = m.m.doc.history.len();
    m.start_resize(Axis3::Y);
    assert!(m.update_resize(Axis3::Y, 25.0));
    assert_eq!(m.m.doc.history.len(), n0, "edits the Sphere, adds no feature");
    m.finish_resize(true);
    let radius = match &m.m.doc.history.get(ball).unwrap().kind {
        FeatureKind::Sphere { radius } => f(*radius),
        _ => panic!("still a sphere"),
    };
    assert!((radius - 15.0).abs() < 1e-9, "radius now 15, got {radius}");

    let mesh = m.mesh();
    assert!(m.m.ui.errors.is_empty(), "errors: {:?}", m.m.ui.errors);
    let (min, max) = bounds(&mesh);
    for k in 0..3 {
        assert!((max[k] - min[k] - 30.0).abs() < 0.5, "axis {k} span {}", max[k] - min[k]);
    }
}

/// A box moved by five along X, so that its tip is not a bare box.
fn moved_box() -> Shell {
    let (mut m, b) = boxed("one", 10.0);
    m.m.doc.add("Move", FeatureKind::Translate { source: b, offset: vec3(5.0, 0.0, 0.0) });
    let _ = m.mesh();
    m.on_pick(Some(Pick::Face(0)), None, false);
    m
}

#[test]
fn a_non_primitive_body_resizes_via_a_scale_feature() {
    let mut m = moved_box();

    let rb = m.m.resize_box().expect("grips on any body's bbox");
    assert!((f(rb.min.x) - 5.0).abs() < 0.1 && (f(rb.max.x) - 15.0).abs() < 0.1);

    let n0 = m.m.doc.history.len();
    m.start_resize(Axis3::X);
    assert!(m.update_resize(Axis3::X, 20.0));
    assert_eq!(m.m.doc.history.len(), n0 + 1, "a Scale feature was added");
    let added_scale =
        m.m.doc.history.features().iter().any(|x| matches!(&x.kind, FeatureKind::Scale { .. }));
    assert!(added_scale, "the new feature is a Scale");
    m.finish_resize(true);

    let mesh = m.mesh();
    assert!(m.m.ui.errors.is_empty(), "errors: {:?}", m.m.ui.errors);
    let (min, max) = bounds(&mesh);
    assert!((max[0] - min[0] - 20.0).abs() < 0.2, "x span {min:?}..{max:?}");
    assert!((max[1] - min[1] - 10.0).abs() < 0.2, "y span unchanged");
    assert!((min[0] - 5.0).abs() < 0.2, "anchored at the -x face");
}

#[test]
fn a_second_resize_edits_the_one_scale_instead_of_stacking() {
    let mut m = Shell::new();
    let _ = m.mesh();
    m.on_pick(Some(Pick::Face(0)), None, false);

    m.start_resize(Axis3::X);
    assert!(m.update_resize(Axis3::X, 60.0));
    m.finish_resize(true);
    let after_first = m.m.doc.history.len();
    let _ = m.mesh();
    assert!(m.m.ui.errors.is_empty(), "errors after first: {:?}", m.m.ui.errors);

    m.on_pick(Some(Pick::Face(0)), None, false);
    m.start_resize(Axis3::Y);
    assert!(m.update_resize(Axis3::Y, 70.0));
    m.finish_resize(true);
    assert_eq!(m.m.doc.history.len(), after_first, "no second Scale was stacked");
    let scale_count = m
        .m
        .doc
        .history
        .features()
        .iter()
        .filter(|x| matches!(&x.kind, FeatureKind::Scale { .. }))
        .count();
    assert_eq!(scale_count, 1, "exactly one Scale feature");

    let mesh = m.mesh();
    assert!(m.m.ui.errors.is_empty(), "errors after second: {:?}", m.m.ui.errors);
    let (min, max) = bounds(&mesh);
    assert!((max[0] - min[0] - 60.0).abs() < 0.5, "x grown {min:?}..{max:?}");
    assert!((max[1] - min[1] - 70.0).abs() < 0.5, "y grown {min:?}..{max:?}");
}

#[test]
fn a_cancelled_scale_resize_is_discarded() {
    let mut m = moved_box();
    let n0 = m.m.doc.history.len();
    let undo0 = m.m.undo.len();
    m.start_resize(Axis3::Z);
    assert!(m.update_resize(Axis3::Z, 30.0));
    m.finish_resize(false);

    assert_eq!(m.m.doc.history.len(), n0, "the Scale feature is removed");
    assert_eq!(m.m.undo.len(), undo0, "its undo entry is dropped");
}

#[test]
fn gizmo_ring_drag_rotates_the_body_about_a_pinned_pivot() {
    let mut doc = Document::new("one");
    doc.add("Bar", FeatureKind::Box { size: vec3(20.0, 10.0, 10.0) });
    let mut m = Shell::of(doc);
    let _ = m.mesh();
    m.on_pick(Some(Pick::Face(0)), None, false);
    let pivot = arr(m.m.gizmo().unwrap());

    let n0 = m.m.doc.history.len();
    m.m.start_transform(GizmoHandle::RotateAxis(Axis3::Z));
    let quarter = std::f64::consts::FRAC_PI_2;
    assert!(m.m.update_transform(TransformDelta::Rotate {
        axis: vec3(0.0, 0.0, 1.0),
        angle: s(quarter),
    }));
    assert_eq!(m.m.doc.history.len(), n0 + 1);

    assert_eq!(arr(m.m.gizmo().unwrap()), pivot);
    assert!(matches!(m.m.transform_readout(), Some(Readout::Angle(a)) if f(a) == quarter));
    m.finish_transform(true);

    let rot = m.m.doc.history.features().iter().find_map(|x| match &x.kind {
        FeatureKind::Rotate { center, angle, .. } => Some((arr(*center), f(*angle))),
        _ => None,
    });
    let (center, angle) = rot.expect("a Rotate feature");
    assert!((angle - quarter).abs() < 1e-9);
    assert!((center[0] - pivot[0]).abs() < 1e-9);
    let mesh = m.mesh();
    assert!(m.m.ui.errors.is_empty(), "errors: {:?}", m.m.ui.errors);
    let (min, max) = bounds(&mesh);
    assert!((max[0] - min[0] - 10.0).abs() < 0.2, "x span {}", max[0] - min[0]);
    assert!((max[1] - min[1] - 20.0).abs() < 0.2, "y span {}", max[1] - min[1]);
}

#[test]
fn gizmo_drag_with_no_movement_is_discarded() {
    let (mut m, _) = boxed("one", 10.0);
    let _ = m.mesh();
    m.on_pick(Some(Pick::Face(0)), None, false);
    let n0 = m.m.doc.history.len();

    m.m.start_transform(GizmoHandle::TranslateAxis(Axis3::X));
    m.finish_transform(false);
    assert_eq!(m.m.doc.history.len(), n0);
    assert!(m.m.transform.is_none());
}

#[test]
fn clicking_a_body_targets_it_for_operations() {
    let mut doc = Document::new("two");
    let a = doc.add("Box A", FeatureKind::Box { size: splat(10.0) });
    let b = doc.add("Box B", FeatureKind::Box { size: splat(10.0) });
    let mut m = Shell::new();
    m.m.doc = doc;
    let _ = m.mesh();
    assert_eq!(m.m.ui.visible, vec![a, b]);

    m.on_pick(Some(Pick::Face(0)), None, false);
    assert_eq!(m.m.ui.selected, Some(a));
    assert_eq!(m.m.selected_body(), Some(a));

    m.on_pick(Some(Pick::Edge(0)), Some([1.0, 2.0, 3.0]), false);
    assert_eq!(m.m.selected_body(), Some(a));
    assert_eq!(m.m.edge_anchors.get(&0), Some(&vec3(1.0, 2.0, 3.0)));

    m.on_pick(None, None, false);
    assert_eq!(m.m.ui.selected, None);
    assert!(m.m.edge_anchors.is_empty());
}

#[test]
fn additive_click_accumulates_edge_anchors() {
    let (mut m, _) = boxed("one", 10.0);
    let _ = m.mesh();

    m.on_pick(Some(Pick::Edge(0)), Some([0.0, 5.0, 10.0]), false);
    m.on_pick(Some(Pick::Edge(2)), Some([10.0, 5.0, 10.0]), true);
    assert_eq!(m.m.selection.selected().len(), 2);
    assert_eq!(m.m.edge_anchors.len(), 2);

    m.on_pick(Some(Pick::Edge(0)), Some([0.0, 5.0, 10.0]), true);
    assert_eq!(m.m.selection.selected(), &[Pick::Edge(2)]);
    assert_eq!(m.m.edge_anchors.len(), 1);
    assert!(m.m.edge_anchors.contains_key(&2));
}

#[test]
fn filleting_selected_edges_adds_a_feature_that_rebuilds() {
    let (mut m, b) = boxed("one", 10.0);
    let _ = m.mesh();

    m.on_pick(Some(Pick::Edge(0)), Some([0.0, 5.0, 10.0]), false);
    m.on_pick(Some(Pick::Edge(2)), Some([10.0, 5.0, 10.0]), true);
    m.m.ui.selected = Some(b);
    assert!(m.m.selection.is_edges());
    assert!(m.m.fillet_selected_edges());

    let mesh = m.mesh();
    assert!(m.m.ui.errors.is_empty(), "errors: {:?}", m.m.ui.errors);
    assert!(!mesh.vertices.is_empty());
    let fillet = m.m.doc.history.features().iter().find_map(|x| match &x.kind {
        FeatureKind::Fillet { edges, .. } => Some(edges.len()),
        _ => None,
    });
    assert_eq!(fillet, Some(2));
    assert_eq!(m.m.doc.history.features()[1].name, "Fillet 2 edges");
    assert!(!m.m.fillet_selected_edges(), "nothing is selected any more");
}

#[test]
fn fillet_face_edges_rounds_the_face_perimeter() {
    let (mut m, _) = boxed("one", 10.0);
    let _ = m.mesh();

    m.m.selection.select(Some(Pick::Face(0)), false, None);
    assert!(m.fillet_selected_face_edges());
    let edges = m.m.doc.history.features().iter().find_map(|x| match &x.kind {
        FeatureKind::Fillet { edges, .. } => Some(edges.len()),
        _ => None,
    });
    assert_eq!(edges, Some(4), "a box face is bounded by 4 edges");

    let mesh = m.mesh();
    assert!(m.m.ui.errors.is_empty(), "errors: {:?}", m.m.ui.errors);
    assert!(!mesh.vertices.is_empty());
}

#[test]
fn extrude_goes_toward_the_camera() {
    let mut doc = Document::new("sk");
    let sk = doc.add(
        "Sketch",
        FeatureKind::Sketch {
            plane: SketchPlane::Xy,
            profile: Profile::Rectangle { width: s(10.0), height: s(10.0) },
        },
    );
    let mut m = Shell::of(doc);
    let distance = |m: &Shell| {
        m.m.doc.history.features().iter().find_map(|x| match x.kind {
            FeatureKind::Extrude { distance, .. } => Some(f(distance)),
            _ => None,
        })
    };

    assert!(m.extrude_sketch(sk, [0.0, 0.0, 100.0]));
    assert_eq!(distance(&m), Some(20.0));

    m.m.undo();
    assert!(m.extrude_sketch(sk, [0.0, 0.0, -100.0]));
    assert_eq!(distance(&m), Some(-20.0));
    assert!(!m.extrude_sketch(FeatureId(99), [0.0, 0.0, 1.0]));
}

#[test]
fn subtract_removes_the_selected_body_from_the_other() {
    let mut doc = Document::new("two");
    let a = doc.add("A", FeatureKind::Box { size: splat(10.0) });
    let bb = doc.add("Bbox", FeatureKind::Box { size: splat(10.0) });
    let b = doc.add("B", FeatureKind::Translate { source: bb, offset: vec3(5.0, 0.0, 0.0) });
    let mut m = Shell::of(doc);
    let _ = m.mesh();
    assert_eq!(m.m.ui.visible, vec![a, b]);

    m.m.ui.selected = Some(a);
    assert!(m.m.apply_boolean(BooleanOp::Subtract));
    let mesh = m.mesh();
    assert!(m.m.ui.errors.is_empty(), "errors: {:?}", m.m.ui.errors);
    let (min, max) = bounds(&mesh);
    assert!((min[0] - 10.0).abs() < 0.2, "min x {} (B-A starts where A ends)", min[0]);
    assert!((max[0] - 15.0).abs() < 0.2, "max x {}", max[0]);
}

#[test]
fn subtract_carves_the_selection_out_of_every_other_body() {
    let mut doc = Document::new("three");
    let carver = doc.add("Carver", FeatureKind::Box { size: splat(20.0) });
    let l1 = doc.add("L1", FeatureKind::Box { size: splat(10.0) });
    let b1 = doc.add("B1", FeatureKind::Translate { source: l1, offset: vec3(15.0, 0.0, 0.0) });
    let l2 = doc.add("L2", FeatureKind::Box { size: splat(10.0) });
    let b2 = doc.add("B2", FeatureKind::Translate { source: l2, offset: vec3(0.0, 15.0, 0.0) });
    let mut m = Shell::of(doc);
    let _ = m.mesh();
    assert_eq!(m.m.ui.visible, vec![carver, b1, b2]);

    m.m.ui.selected = Some(carver);
    assert!(m.m.apply_boolean(BooleanOp::Subtract));
    let mesh = m.mesh();
    assert!(m.m.ui.errors.is_empty(), "errors: {:?}", m.m.ui.errors);
    assert_eq!(m.m.ui.visible.len(), 2, "both bodies carved");
    assert!(!mesh.vertices.is_empty());
}

#[test]
fn union_folds_the_selection_with_the_others_into_one() {
    let mut doc = Document::new("u");
    let a = doc.add("A", FeatureKind::Box { size: splat(10.0) });
    let lb = doc.add("Lb", FeatureKind::Box { size: splat(10.0) });
    doc.add("B", FeatureKind::Translate { source: lb, offset: vec3(5.0, 0.0, 0.0) });
    let mut m = Shell::of(doc);
    let _ = m.mesh();
    m.m.ui.selected = Some(a);
    assert!(m.m.apply_boolean(BooleanOp::Union));
    let _ = m.mesh();
    assert!(m.m.ui.errors.is_empty(), "errors: {:?}", m.m.ui.errors);
    assert_eq!(m.m.ui.visible.len(), 1, "union leaves one body");
    assert!(!m.m.apply_boolean(BooleanOp::Union), "nothing else to combine with");
}

#[test]
fn undo_and_redo_restore_document_state() {
    let mut m = Shell::new().m;
    let n0 = m.doc.history.len();

    m.record_undo(m.doc.clone());
    m.doc.add("Sphere", FeatureKind::Sphere { radius: s(10.0) });
    assert_eq!(m.doc.history.len(), n0 + 1);

    assert!(m.undo());
    assert_eq!(m.doc.history.len(), n0, "undo removes the added feature");

    assert!(m.redo());
    assert_eq!(m.doc.history.len(), n0 + 1, "redo restores it");

    assert!(!m.redo(), "nothing left to redo");
}

#[test]
fn a_new_edit_clears_the_redo_stack() {
    let mut m = Shell::new().m;

    m.record_undo(m.doc.clone());
    m.doc.add("Sphere", FeatureKind::Sphere { radius: s(10.0) });
    assert!(m.undo());
    assert!(!m.redo.is_empty(), "an undone change is redoable");

    m.record_undo(m.doc.clone());
    m.doc.add("Box", FeatureKind::Box { size: splat(5.0) });
    assert!(m.redo.is_empty(), "a new edit clears redo");
}

#[test]
fn adding_a_primitive_adds_a_visible_body() {
    let mut m = Shell::new();
    let _ = m.mesh();
    let before = m.m.ui.visible.len();
    m.m.doc.add("Sphere", FeatureKind::Sphere { radius: s(10.0) });
    let _ = m.mesh();
    assert_eq!(m.m.ui.visible.len(), before + 1);
    assert!(m.m.ui.errors.is_empty());
}

#[test]
fn sketch_extrude_makes_a_prism_of_the_right_size() {
    let mut doc = Document::new("prism");
    let sketch = doc.add(
        "Sketch",
        FeatureKind::Sketch {
            plane: SketchPlane::Xy,
            profile: Profile::Rectangle { width: s(30.0), height: s(20.0) },
        },
    );
    doc.add("Extrude", FeatureKind::Extrude { source: sketch, distance: s(15.0) });
    let mut m = Shell::of(doc);
    let mesh = m.mesh();
    assert!(m.m.ui.errors.is_empty());
    assert!((span(&mesh, 0) - 30.0).abs() < 0.5, "x span {}", span(&mesh, 0));
    assert!((span(&mesh, 1) - 20.0).abs() < 0.5, "y span {}", span(&mesh, 1));
    assert!((span(&mesh, 2) - 15.0).abs() < 0.5, "z span {}", span(&mesh, 2));
}

#[test]
fn deleting_the_fillet_heals_the_bore_hole() {
    let mut m = Shell::new();
    let fillet_id = m.m.doc.history.features()[2].id;
    m.m.doc.history.remove(fillet_id);
    let mesh = m.mesh();
    assert!(m.m.ui.errors.is_empty(), "errors after delete: {:?}", m.m.ui.errors);
    assert!(!mesh.indices.is_empty());
}

#[test]
fn suppressing_a_referenced_feature_surfaces_an_error() {
    let mut m = Shell::new();
    let fillet_id = m.m.doc.history.features()[2].id;
    m.m.doc.history.set_suppressed(fillet_id, true);
    let _ = m.mesh();
    assert!(!m.m.ui.errors.is_empty());
    assert_eq!(m.m.ui.errors[0].1, "needs 'Fillet edges' (suppressed)");
}

#[test]
fn a_body_without_a_mesh_is_told_and_keeps_its_place() {
    let mut doc = Document::new("gone");
    let a = doc.add("A", FeatureKind::Box { size: splat(10.0) });
    let b = doc.add("B", FeatureKind::Box { size: splat(10.0) });
    doc.add("Nothing", FeatureKind::Boolean { op: BooleanOp::Subtract, target: a, tool: b });
    doc.add("C", FeatureKind::Box { size: splat(2.0) });
    let mut m = Shell::of(doc);
    let _ = m.mesh();
    assert_eq!(m.m.ui.errors, vec![(FeatureId(0), "nothing left".to_string())]);
    assert_eq!(m.m.body_boxes.len(), 2);
    assert_eq!(f(m.m.body_boxes[0].span), 0.0);
    assert_eq!(m.m.locate_face(0), Some((1, 0)));
}

#[test]
fn a_pushed_face_is_one_feature_and_one_undo_entry() {
    let (mut m, _) = boxed("push", 10.0);
    let _ = m.mesh();
    let outward = m.start_manipulation(5, [5.0, 5.0, 10.0], [5.0, 5.0, 99.0]).unwrap();
    assert_eq!(outward, [0.0, 0.0, 1.0]);
    for d in [1.0, 4.0, 2.5] {
        assert!(m.m.update_manipulation(s(d)));
    }
    m.m.finish_manipulation(true);
    assert_eq!(m.m.undo.len(), 1);
    assert_eq!(m.m.doc.history.len(), 2);
    let mesh = m.mesh();
    assert!((span(&mesh, 2) - 12.5).abs() < 1e-6);
    assert!(m.m.undo());
    assert_eq!(m.m.doc.history.len(), 1);
}

#[test]
fn the_far_side_of_a_face_is_pushed_outward_too() {
    let (mut m, _) = boxed("push", 10.0);
    let _ = m.mesh();
    let outward = m.start_manipulation(4, [5.0, 5.0, 0.0], [5.0, 5.0, -99.0]).unwrap();
    assert_eq!(outward, [0.0, 0.0, -1.0]);
    m.m.update_manipulation(s(3.0));
    m.m.finish_manipulation(true);
    let (min, _) = bounds(&m.mesh());
    assert!((min[2] + 3.0).abs() < 1e-6);
}

#[test]
fn a_push_that_comes_to_nothing_is_dropped() {
    let (mut m, _) = boxed("push", 10.0);
    let _ = m.mesh();
    for (last, commit) in [(5.0, false), (0.0005, true), (-0.0009, true)] {
        m.start_manipulation(5, [5.0, 5.0, 10.0], [5.0, 5.0, 99.0]).unwrap();
        m.m.update_manipulation(s(7.0));
        m.m.update_manipulation(s(last));
        m.m.finish_manipulation(commit);
        assert_eq!(m.m.doc.history.len(), 1);
        assert!(m.m.undo.is_empty());
        assert!(m.m.manipulation.is_none());
        assert!(m.m.doc.is_at_tip());
    }
    assert!(!m.m.update_manipulation(s(1.0)), "nothing is being pushed");
    assert!(m.m.start_manipulation(Pick::Edge(0), splat(0.0), None, s(1.0)).is_none());
}

#[test]
fn a_move_that_comes_to_nothing_is_dropped() {
    let (mut m, _) = boxed("move", 10.0);
    let _ = m.mesh();
    m.on_pick(Some(Pick::Face(0)), None, false);
    m.m.start_transform(GizmoHandle::TranslateAxis(Axis3::X));
    m.m.update_transform(TransformDelta::Translate(vec3(9.0, 0.0, 0.0)));
    m.m.update_transform(TransformDelta::Translate(vec3(0.0005, 0.0, 0.0)));
    m.finish_transform(true);
    assert_eq!(m.m.doc.history.len(), 1);
    assert!(m.m.undo.is_empty());

    m.m.start_transform(GizmoHandle::RotateAxis(Axis3::X));
    m.m.update_transform(TransformDelta::Rotate { axis: vec3(1.0, 0.0, 0.0), angle: s(-5e-5) });
    m.finish_transform(true);
    assert_eq!(m.m.doc.history.len(), 1);
}

#[test]
fn a_cancelled_cylinder_has_its_radius_back() {
    let mut doc = Document::new("cyl");
    let c = doc.add("Cyl", FeatureKind::Cylinder { radius: s(10.0), height: s(20.0) });
    let mut m = Shell::of(doc);
    let _ = m.mesh();
    m.on_pick(Some(Pick::Face(0)), None, false);
    m.start_resize(Axis3::Y);
    assert!(m.update_resize(Axis3::Y, 33.0));
    assert!(m.update_resize(Axis3::Z, 5.0));
    m.finish_resize(false);
    match m.m.doc.history.get(c).unwrap().kind {
        FeatureKind::Cylinder { radius, height } => {
            assert_eq!((f(radius), f(height)), (10.0, 20.0));
        }
        _ => panic!("still a cylinder"),
    }
    assert!(m.m.undo.is_empty());
}

#[test]
fn a_resize_never_goes_below_the_least_size() {
    let (mut m, id) = boxed("least", 10.0);
    let _ = m.mesh();
    m.on_pick(Some(Pick::Face(0)), None, false);
    m.start_resize(Axis3::X);
    assert_eq!(m.m.resize.unwrap().mode, ResizeMode::BoxDim);
    assert!(!m.update_resize(Axis3::X, 10.0), "as large as it is");
    assert!(m.m.undo.is_empty());
    assert!(m.update_resize(Axis3::X, -4.0));
    match m.m.doc.history.get(id).unwrap().kind {
        FeatureKind::Box { size } => assert_eq!(f(size.x), 0.1),
        _ => panic!("still a box"),
    }
    m.finish_resize(true);
    assert!(!m.update_resize(Axis3::X, 20.0), "nothing is being resized");
}

#[test]
fn a_scale_back_to_one_is_dropped() {
    let mut m = moved_box();
    m.start_resize(Axis3::X);
    assert!(m.update_resize(Axis3::X, 20.0));
    assert!(m.update_resize(Axis3::X, 10.0), "an added scale is edited even back to one");
    m.finish_resize(true);
    assert_eq!(m.m.doc.history.len(), 2);
    assert!(m.m.undo.is_empty());
}

#[test]
fn a_cancelled_second_resize_keeps_the_first() {
    let mut m = moved_box();
    m.start_resize(Axis3::X);
    m.update_resize(Axis3::X, 20.0);
    m.finish_resize(true);
    let _ = m.mesh();
    m.on_pick(Some(Pick::Face(0)), None, false);
    m.start_resize(Axis3::Y);
    assert_eq!(m.m.resize.unwrap().mode, ResizeMode::EditScale);
    assert!(m.update_resize(Axis3::Y, 50.0));
    m.finish_resize(false);
    let factors = m.m.doc.history.features().iter().find_map(|x| match x.kind {
        FeatureKind::Scale { factors, .. } => Some(arr(factors)),
        _ => None,
    });
    assert_eq!(factors, Some([2.0, 1.0, 1.0]));
    assert_eq!(m.m.undo.len(), 1);
}

#[test]
fn undo_goes_back_so_far_and_no_further() {
    let (shell, _) = boxed("limit", 1.0);
    let mut m = shell.m;
    for k in 0..UNDO_LIMIT + 5 {
        m.record_undo(m.doc.clone());
        m.doc.add("Box", FeatureKind::Box { size: splat(k as f64) });
    }
    assert_eq!(m.undo.len(), UNDO_LIMIT);
    let mut steps = 0;
    while m.undo() {
        steps += 1;
    }
    assert_eq!(steps, UNDO_LIMIT);
    assert_eq!(m.doc.history.len(), 6, "the oldest states were dropped");
    assert_eq!(m.redo.len(), UNDO_LIMIT);
}

#[test]
fn a_continuous_panel_edit_is_one_undo_entry() {
    let (shell, id) = boxed("drag", 1.0);
    let mut m = shell.m;
    for k in 0..4 {
        let before = m.begin_panel();
        assert_eq!(before.is_some(), k == 0);
        m.doc.history.get_mut(id).unwrap().kind = FeatureKind::Box { size: splat(k as f64) };
        m.end_panel(before, true);
    }
    let before = m.begin_panel();
    assert!(m.ui.can_undo && !m.ui.can_redo);
    m.end_panel(before, false);
    assert!(!m.editing);
    assert_eq!(m.undo.len(), 1);
    assert!(m.step(true, false));
    match m.doc.history.get(id).unwrap().kind {
        FeatureKind::Box { size } => assert_eq!(f(size.x), 1.0),
        _ => panic!("still a box"),
    }
    assert!(m.step(false, true));
    assert!(!m.step(false, true));
    assert!(m.step(true, true), "undone and redone");
}

#[test]
fn keys_undo_and_redo() {
    assert_eq!(undo_redo_keys(true, false, true, false), (true, false));
    assert_eq!(undo_redo_keys(true, true, true, false), (false, true));
    assert_eq!(undo_redo_keys(true, false, false, true), (false, true));
    assert_eq!(undo_redo_keys(false, true, true, true), (false, false));
}

#[test]
fn the_selection_bar_fits_the_selection() {
    let (mut m, _) = boxed("bar", 10.0);
    let _ = m.mesh();
    assert!(matches!(m.m.selection_bar(), SelectionBar::Hidden));
    m.on_pick(Some(Pick::Face(0)), None, false);
    assert!(matches!(m.m.selection_bar(), SelectionBar::Face { can_sketch: true }));
    m.on_pick(Some(Pick::Edge(3)), None, false);
    match m.m.selection_bar() {
        SelectionBar::Edges { label, action } => {
            assert_eq!(label, "1 edge selected");
            assert_eq!(action, "⌒ Fillet this edge");
        }
        _ => panic!("an edge is selected"),
    }
    assert!(!m.m.fillet_selected_edges(), "where it was clicked is not known");
    for e in 4..15 {
        m.on_pick(Some(Pick::Edge(e)), None, true);
    }
    match m.m.selection_bar() {
        SelectionBar::Edges { label, action } => {
            assert_eq!(label, "12 edges selected");
            assert_eq!(action, "⌒ Fillet these 12 edges");
        }
        _ => panic!("edges are selected"),
    }
    m.m.on_hover(Some(Pick::Face(2)));
    let h = m.m.highlights();
    assert_eq!((h.selected.len(), h.hovered), (12, Some(Pick::Face(2))));
    m.m.start_sketch(SketchPlane::Xy);
    assert!(matches!(m.m.selection_bar(), SelectionBar::Hidden));
    assert!(!m.m.wants_picking() && m.m.gizmo().is_none());
}

#[test]
fn a_drawn_sketch_becomes_a_feature() {
    let (mut m, _) = boxed("draw", 10.0);
    let _ = m.mesh();
    m.on_pick(Some(Pick::Face(5)), None, false);
    m.m.sketch_on_selected_face();
    assert!(m.m.selection.is_empty());
    m.m.enter_sketch(SketchPlane::Yz);
    let session = m.m.sketch_session.as_ref().unwrap();
    assert!(session.plane != SketchPlane::Yz, "a sketch is being drawn already");

    for (u, v) in [(1.0, 1.0), (4.0, 1.0), (1.0, 3.0)] {
        let step = m.m.apply_sketch_action(SketchAction::AddPoint([s(u), s(v)]));
        assert!(!step.changed && !step.over && !step.solve);
    }
    let step = m.m.apply_sketch_action(SketchAction::CloseLoop);
    assert!(step.solve && !step.over);
    m.m.apply_sketch_action(SketchAction::SetTool(SketchTool::Select));
    m.m.apply_sketch_action(SketchAction::PickAt {
        points: vec![(s(2.0), PointId(0))],
        lines: Vec::new(),
    });
    assert_eq!(m.m.sketch_session.as_ref().unwrap().selected_points, vec![PointId(0)]);
    let fixed = SketchAction::Apply(Constraint::Fixed(PointId(0)));
    assert!(m.m.apply_sketch_action(fixed).solve);
    let step = m.m.apply_sketch_action(SketchAction::Finish);
    assert!(step.changed && step.over);
    assert!(m.m.wants_picking());
    let id = m.m.ui.selected.unwrap();
    assert!(m.extrude_sketch(id, [0.0, 0.0, 99.0]));
    let mesh = m.mesh();
    assert!(m.m.ui.errors.is_empty(), "errors: {:?}", m.m.ui.errors);
    assert!((span(&mesh, 2) - 30.0).abs() < 1e-6, "twenty on top of ten");
    assert_eq!(m.m.undo.len(), 2);
}

#[test]
fn an_open_sketch_is_dropped() {
    let (mut m, _) = boxed("open", 10.0);
    m.m.start_sketch(SketchPlane::Xy);
    m.m.apply_sketch_action(SketchAction::AddPoint([s(0.0), s(0.0)]));
    m.m.apply_sketch_action(SketchAction::AddPoint([s(1.0), s(0.0)]));
    let step = m.m.apply_sketch_action(SketchAction::Finish);
    assert!(!step.changed && step.over);
    assert_eq!(m.m.doc.history.len(), 1);
    assert!(m.m.undo.is_empty() && m.m.sketch_session.is_none());
    m.m.start_sketch(SketchPlane::Xy);
    let step = m.m.apply_sketch_action(SketchAction::Cancel);
    assert!(!step.changed && step.over && m.m.sketch_session.is_none());
    assert!(!m.m.finish_sketch());
}

#[test]
fn opening_a_document_forgets_the_old_one() {
    let mut m = moved_box();
    m.m.start_transform(GizmoHandle::TranslateAxis(Axis3::X));
    m.m.update_transform(TransformDelta::Translate(vec3(1.0, 0.0, 0.0)));
    m.m.start_sketch(SketchPlane::Xy);
    m.m.open_document(Document::new("other"));
    m.m.report("Opened other".to_string());
    assert_eq!(m.m.doc.name, "other");
    assert!(m.m.undo.is_empty() && m.m.redo.is_empty() && m.m.selection.is_empty());
    assert!(m.m.transform.is_none() && m.m.sketch_session.is_none());
    assert_eq!(m.m.ui.selected, None);
    assert_eq!(m.m.status.as_deref(), Some("Opened other"));
}

#[test]
fn opening_a_document_ends_a_resize() {
    let (mut m, _) = boxed("old", 20.0);
    let _ = m.mesh();
    m.on_pick(Some(Pick::Face(0)), None, false);
    m.start_resize(Axis3::X);
    assert!(m.update_resize(Axis3::X, 25.0));
    m.m.editing = true;
    let (other, id) = boxed("new", 10.0);
    m.m.open_document(other.m.doc.clone());
    assert!(m.m.resize.is_none() && !m.m.editing);
    assert!(m.m.undo.is_empty() && m.m.redo.is_empty() && m.m.edge_anchors.is_empty());
    assert!(!m.update_resize(Axis3::X, 30.0), "nothing is being resized");
    m.finish_resize(false);
    assert_eq!(m.m.doc.history.len(), 1);
    let size = match &m.m.doc.history.get(id).unwrap().kind {
        FeatureKind::Box { size } => f(size.x),
        _ => panic!("still a box"),
    };
    assert_eq!(size, 10.0);
}

#[test]
fn a_resize_is_called_off_beside_a_dangling_reference() {
    let mut m = moved_box();
    let stray = FeatureKind::Box { size: splat(1.0) };
    let gone = m.m.doc.add("Gone", stray);
    m.m.doc.add("Orphan", FeatureKind::Translate { source: gone, offset: splat(1.0) });
    m.m.doc.history.remove(gone);
    assert!(m.m.doc.history.validate().is_err());
    let names = |m: &Shell| -> Vec<String> {
        m.m.doc.history.features().iter().map(|x| x.name.clone()).collect()
    };
    let (before, undo) = (names(&m), m.m.undo.len());
    m.start_resize(Axis3::X);
    assert!(m.update_resize(Axis3::X, 40.0));
    m.finish_resize(false);
    assert_eq!(names(&m), before);
    assert_eq!(m.m.undo.len(), undo);
    assert!(m.m.resize.is_none());
}

#[test]
fn a_bar_pulled_back_ends_one_further_when_a_drag_is_called_off() {
    let mut m = moved_box();
    let size = FeatureKind::Box { size: splat(1.0) };
    m.m.doc.add("Later", size);
    let tip = m.m.doc.history.len();
    m.m.doc.set_rollback(tip - 1);
    m.start_resize(Axis3::X);
    assert!(m.update_resize(Axis3::X, 40.0));
    m.finish_resize(false);
    assert_eq!(m.m.doc.history.len(), tip);
    assert_eq!(m.m.doc.active_features().len(), tip);
}
