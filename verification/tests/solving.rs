//! Solving constraints. The numbers are worked out here; what is decided on the
//! way is the library's.

use riemanifold::descent::{max_abs, pivot, Descent, Phase, RankWalk, SolveOptions};
use riemanifold::scalar::Scalar;
use riemanifold::sketch::{Constraint, LineId, PointId};
use riemanifold::sketch2d::Sketch2d;
use riemanifold::solver::{Residual, SketchSolution, SolveReport, Span};

fn s(v: f64) -> Scalar {
    Scalar::from_bits(v.to_bits())
}

fn f(v: Scalar) -> f64 {
    f64::from_bits(v.to_bits())
}

type Equations<'a> = dyn Fn(&[f64]) -> Vec<f64> + 'a;

fn scalars(values: &[f64]) -> Vec<Scalar> {
    values.iter().map(|v| s(*v)).collect()
}

fn sum_sq(r: &[f64]) -> f64 {
    r.iter().map(|v| v * v).sum()
}

/// The derivatives of the equations, row by row.
fn jacobian(x: &[f64], eval: &Equations) -> Vec<Vec<f64>> {
    let r = eval(x);
    let mut rows = vec![vec![0.0; x.len()]; r.len()];
    for j in 0..x.len() {
        let step = 1e-7 * (1.0 + x[j].abs());
        let mut xp = x.to_vec();
        xp[j] += step;
        let rp = eval(&xp);
        for i in 0..r.len() {
            rows[i][j] = (rp[i] - r[i]) / step;
        }
    }
    rows
}

/// The pivot of a column at or below a row.
fn pivot_row(a: &[Vec<f64>], row: usize, col: usize, tolerance: f64) -> Option<usize> {
    let column: Vec<Scalar> = (row..a.len()).map(|r| s(a[r][col])).collect();
    pivot(&column, s(tolerance)).map(|k| row + k)
}

fn solve_linear(mut a: Vec<Vec<f64>>, mut b: Vec<f64>) -> Option<Vec<f64>> {
    let n = b.len();
    for col in 0..n {
        let p = pivot_row(&a, col, col, 1e-15)?;
        a.swap(col, p);
        b.swap(col, p);
        for row in (col + 1)..n {
            let factor = a[row][col] / a[col][col];
            for k in col..n {
                a[row][k] -= factor * a[col][k];
            }
            b[row] -= factor * b[col];
        }
    }
    let mut x = vec![0.0; n];
    for col in (0..n).rev() {
        let mut sum = b[col];
        for k in (col + 1)..n {
            sum -= a[col][k] * x[k];
        }
        x[col] = sum / a[col][col];
    }
    Some(x)
}

fn solve(x: &mut Vec<f64>, eval: &Equations, options: SolveOptions) -> SolveReport {
    let mut r = eval(x);
    let n = x.len();
    let mut d =
        Descent::start(options, n, r.len(), s(sum_sq(&r)), max_abs(&scalars(&r)));
    let mut jac: Vec<Vec<f64>> = Vec::new();
    loop {
        match d.phase {
            Phase::Done => return d.report(),
            Phase::Linearise => {
                jac = jacobian(x, eval);
                d.linearised();
            }
            Phase::Try { .. } => {
                let lambda = f(d.lambda);
                let mut a = vec![vec![0.0; n]; n];
                let mut g = vec![0.0; n];
                for p in 0..n {
                    for q in 0..n {
                        a[p][q] = jac.iter().map(|row| row[p] * row[q]).sum();
                    }
                    a[p][p] = a[p][p] * (1.0 + lambda) + lambda * 1e-9 + 1e-12;
                    g[p] = -jac.iter().zip(&r).map(|(row, v)| row[p] * v).sum::<f64>();
                }
                match solve_linear(a, g) {
                    None => d.singular(s(lambda * 4.0)),
                    Some(dx) => {
                        let x_new: Vec<f64> = x.iter().zip(&dx).map(|(a, b)| a + b).collect();
                        let r_new = eval(&x_new);
                        let worst = max_abs(&scalars(&r_new));
                        if d.step(s(sum_sq(&r_new)), worst, s(lambda * 0.5), s(lambda * 4.0)) {
                            *x = x_new;
                            r = r_new;
                        }
                    }
                }
            }
        }
    }
}

fn rank(x: &[f64], eval: &Equations) -> usize {
    let mut jac = jacobian(x, eval);
    let mut walk = RankWalk::new(jac.len(), x.len());
    while let Some((row, col)) = walk.place() {
        let found = pivot_row(&jac, row, col, 1e-7);
        if let Some(p) = found {
            jac.swap(row, p);
            for r in (row + 1)..jac.len() {
                let factor = jac[r][col] / jac[row][col];
                for k in col..x.len() {
                    jac[r][k] -= factor * jac[row][k];
                }
            }
        }
        walk.advance(found.is_some());
    }
    walk.rank
}

fn length(x: &[f64], v: Span) -> f64 {
    (x[v.bx] - x[v.ax]).hypot(x[v.by] - x[v.ay])
}

fn value(r: &Residual, x: &[f64]) -> f64 {
    let way = |v: Span| (x[v.bx] - x[v.ax], x[v.by] - x[v.ay]);
    match *r {
        Residual::Pin { var, value } => x[var] - f(value),
        Residual::Equal { a, b } => x[a] - x[b],
        Residual::Distance { span, value } => length(x, span) - f(value),
        Residual::Parallel { first, second } => {
            let ((u1, u2), (v1, v2)) = (way(first), way(second));
            u1 * v2 - u2 * v1
        }
        Residual::Perpendicular { first, second } => {
            let ((u1, u2), (v1, v2)) = (way(first), way(second));
            u1 * v1 + u2 * v2
        }
        Residual::EqualLength { first, second } => length(x, first) - length(x, second),
    }
}

fn solve_sketch(sketch: &mut Sketch2d) -> SketchSolution {
    assert!(sketch.is_solvable());
    let residuals = sketch.residuals();
    let eval = |x: &[f64]| residuals.iter().map(|r| value(r, x)).collect::<Vec<f64>>();
    let mut x: Vec<f64> = sketch.pack().iter().map(|v| f(*v)).collect();
    let report = solve(&mut x, &eval, SolveOptions::default());
    sketch.unpack(&scalars(&x));
    SketchSolution::of(report, x.len(), residuals.len(), rank(&x, &eval))
}

fn near(a: f64, b: f64) -> bool {
    (a - b).abs() < 1e-6
}

#[test]
fn solves_decoupled_linear() {
    let eval = |x: &[f64]| vec![x[0] - 3.0, x[1] - 4.0];
    let mut x = vec![0.0, 0.0];
    let report = solve(&mut x, &eval, SolveOptions::default());
    assert!(report.converged);
    assert!(near(x[0], 3.0) && near(x[1], 4.0));
}

#[test]
fn solves_coupled_linear() {
    let eval = |x: &[f64]| vec![x[0] + x[1] - 10.0, x[0] - x[1] - 2.0];
    let mut x = vec![0.0, 0.0];
    let report = solve(&mut x, &eval, SolveOptions::default());
    assert!(report.converged);
    assert!(near(x[0], 6.0) && near(x[1], 4.0));
}

#[test]
fn solves_nonlinear_circle_intersection() {
    let eval = |x: &[f64]| vec![(x[0] * x[0] + x[1] * x[1]).sqrt() - 5.0, x[0] - 3.0];
    let mut x = vec![3.0, 3.0];
    let report = solve(&mut x, &eval, SolveOptions::default());
    assert!(report.converged, "norm {}", f(report.residual_norm));
    assert!(near(x[0], 3.0) && near(x[1], 4.0));
}

#[test]
fn underconstrained_stays_near_guess() {
    let eval = |x: &[f64]| vec![x[0] - 1.0];
    let mut x = vec![5.0, 7.0];
    let report = solve(&mut x, &eval, SolveOptions::default());
    assert!(report.converged);
    assert!(near(x[0], 1.0));
    assert!((x[1] - 7.0).abs() < 1e-3, "free var drifted to {}", x[1]);
}

fn close(a: f64, b: f64) -> bool {
    (a - b).abs() < 1e-5
}

fn point(sketch: &mut Sketch2d, x: f64, y: f64) -> PointId {
    sketch.add_point(s(x), s(y))
}

#[test]
fn fully_constrained_rectangle_solves_to_exact_corners() {
    let mut sk = Sketch2d::new();
    let p0 = point(&mut sk, 0.0, 0.0);
    let p1 = point(&mut sk, 38.0, 2.0);
    let p2 = point(&mut sk, 41.0, 19.0);
    let p3 = point(&mut sk, -1.0, 21.0);

    let bottom = sk.add_line(p0, p1);
    let right = sk.add_line(p1, p2);
    let top = sk.add_line(p2, p3);
    let left = sk.add_line(p3, p0);

    sk.add_constraint(Constraint::Fixed(p0));
    sk.add_constraint(Constraint::Horizontal(bottom));
    sk.add_constraint(Constraint::Vertical(right));
    sk.add_constraint(Constraint::Horizontal(top));
    sk.add_constraint(Constraint::Vertical(left));
    sk.add_constraint(Constraint::Distance(p0, p1, s(40.0)));
    sk.add_constraint(Constraint::Distance(p1, p2, s(20.0)));

    let solution = solve_sketch(&mut sk);
    assert!(solution.report.converged, "norm {}", f(solution.report.residual_norm));
    assert!(solution.is_fully_constrained(), "dof {}", solution.degrees_of_freedom);

    let at = |p, x, y| {
        let pt = sk.point(p);
        assert!(close(f(pt.x), x) && close(f(pt.y), y), "got ({}, {})", f(pt.x), f(pt.y));
    };
    at(p0, 0.0, 0.0);
    at(p1, 40.0, 0.0);
    at(p2, 40.0, 20.0);
    at(p3, 0.0, 20.0);
}

#[test]
fn equal_and_perpendicular_make_a_square() {
    let mut sk = Sketch2d::new();
    let p0 = point(&mut sk, 0.0, 0.0);
    let p1 = point(&mut sk, 9.0, 1.0);
    let p2 = point(&mut sk, 8.0, 11.0);

    let base = sk.add_line(p0, p1);
    let side = sk.add_line(p1, p2);

    sk.add_constraint(Constraint::Fixed(p0));
    sk.add_constraint(Constraint::Horizontal(base));
    sk.add_constraint(Constraint::Perpendicular(base, side));
    sk.add_constraint(Constraint::EqualLength(base, side));
    sk.add_constraint(Constraint::Distance(p0, p1, s(10.0)));

    let solution = solve_sketch(&mut sk);
    assert!(solution.report.converged);

    let p1s = sk.point(p1);
    let p2s = sk.point(p2);
    assert!(close(f(p1s.x), 10.0) && close(f(p1s.y), 0.0));
    assert!(close(f(p2s.x), 10.0) && close(f(p2s.y).abs(), 10.0));
}

#[test]
fn radius_constraint_drives_circle_size() {
    let mut sk = Sketch2d::new();
    let c = point(&mut sk, 0.0, 0.0);
    let circle = sk.add_circle(c, s(3.0));
    sk.add_constraint(Constraint::Fixed(c));
    sk.add_constraint(Constraint::Radius(circle, s(12.5)));

    let solution = solve_sketch(&mut sk);
    assert!(solution.report.converged);
    assert!(close(f(sk.circle(circle).radius), 12.5));
}

#[test]
fn underconstrained_sketch_reports_free_dofs() {
    let mut sk = Sketch2d::new();
    let p0 = point(&mut sk, 0.0, 0.0);
    let _p1 = point(&mut sk, 10.0, 0.0);
    sk.add_constraint(Constraint::Fixed(p0));

    let solution = solve_sketch(&mut sk);
    assert!(solution.report.converged);
    assert_eq!(solution.variables, 4);
    assert_eq!(solution.degrees_of_freedom, 2, "the free endpoint has 2 dof");
    assert!(!solution.is_fully_constrained());
}

#[test]
fn parallel_and_coincident_hold() {
    let mut sk = Sketch2d::new();
    let a = point(&mut sk, 0.0, 0.0);
    let b = point(&mut sk, 10.0, 1.0);
    let c = point(&mut sk, 0.5, 5.0);
    let d = point(&mut sk, 9.0, 7.0);
    let e = point(&mut sk, 9.5, 6.5);
    let l = sk.add_line(a, b);
    let m = sk.add_line(c, d);
    sk.add_constraint(Constraint::Fixed(a));
    sk.add_constraint(Constraint::Fixed(b));
    sk.add_constraint(Constraint::Fixed(c));
    sk.add_constraint(Constraint::Parallel(l, m));
    sk.add_constraint(Constraint::Coincident(d, e));
    let solution = solve_sketch(&mut sk);
    assert!(solution.report.converged);
    assert_eq!(solution.equations, 9);
    let (pc, pd, pe) = (sk.point(c), sk.point(d), sk.point(e));
    assert!(close(f(pd.x), f(pe.x)) && close(f(pd.y), f(pe.y)));
    assert!(close((f(pd.x) - f(pc.x)) * 1.0, (f(pd.y) - f(pc.y)) * 10.0));
}

#[test]
fn a_constraint_on_nothing_cannot_be_solved() {
    let mut sk = Sketch2d::new();
    let p = point(&mut sk, 0.0, 0.0);
    sk.add_constraint(Constraint::Fixed(p));
    assert!(sk.is_solvable());
    sk.add_constraint(Constraint::Horizontal(LineId(0)));
    assert!(!sk.is_solvable());
}

#[test]
fn nothing_to_solve_ends_at_once() {
    let d = Descent::start(SolveOptions::default(), 0, 3, s(1.0), s(1.0));
    assert_eq!(d.phase, Phase::Done);
    assert!(!d.report().converged);
    let d = Descent::start(SolveOptions::default(), 2, 2, s(0.0), s(1e-9));
    assert_eq!(d.phase, Phase::Done);
    assert!(d.report().converged && d.report().iterations == 0);
}

#[test]
fn a_solve_gives_up_after_twelve_refused_steps() {
    let mut d = Descent::start(SolveOptions::default(), 1, 1, s(4.0), s(2.0));
    assert_eq!((d.phase, d.iterations), (Phase::Linearise, 1));
    d.linearised();
    for k in 0..12 {
        assert_eq!(d.phase, Phase::Try { refused: k });
        if k % 2 == 0 {
            assert!(!d.step(s(4.0), s(0.0), s(1.0), s(2.0)));
        } else {
            d.singular(s(8.0));
        }
    }
    assert_eq!(d.phase, Phase::Done);
    assert!(!d.report().converged);
    assert_eq!(f(d.lambda), 8.0);
    assert_eq!(f(d.report().residual_norm), 2.0);
}

#[test]
fn a_solve_stops_when_the_rounds_are_used_up() {
    let options = SolveOptions { max_iterations: 2, tolerance: s(1e-9), initial_lambda: s(1e-3) };
    let mut d = Descent::start(options, 1, 1, s(9.0), s(3.0));
    d.linearised();
    assert!(d.step(s(4.0), s(2.0), s(0.0), s(1.0)));
    assert_eq!(f(d.lambda), 1e-12, "damping has a floor");
    assert_eq!((d.phase, d.iterations), (Phase::Linearise, 2));
    d.linearised();
    assert!(d.step(s(1.0), s(1.0), s(0.5), s(1.0)));
    assert_eq!(d.phase, Phase::Done);
}

#[test]
fn the_pivot_is_the_largest_and_the_first_of_equals() {
    assert_eq!(pivot(&scalars(&[1.0, -3.0, 3.0]), s(1e-9)), Some(1));
    assert_eq!(pivot(&scalars(&[0.0, 1e-10]), s(1e-9)), None);
    assert_eq!(f(max_abs(&scalars(&[1.0, -3.0, 2.0]))), 3.0);
    assert_eq!(f(max_abs(&Vec::new())), 0.0);
}
