//! What the equations of a sketch mean.
//!
//! How far apart two places are, and which way lines point, is for those to say who
//! can compute it. Whatever they say, the equations vanish on some values of the
//! variables exactly if the sketch with those values written back meets the
//! constraints.

use crate::scalar::Scalar;
use crate::sketch::{Constraint, SketchLine, SketchPoint};
use crate::sketch2d::SketchModel;
use crate::solver::{Residual, Span};
use vstd::prelude::*;

verus! {

/// What is said of places: how far apart two are, and whether the lines between two
/// pairs of them are parallel, perpendicular or equally long.
pub struct Geometry {
    pub distance: spec_fn(SketchPoint, SketchPoint) -> Scalar,
    pub parallel: spec_fn(SketchPoint, SketchPoint, SketchPoint, SketchPoint) -> bool,
    pub perpendicular: spec_fn(SketchPoint, SketchPoint, SketchPoint, SketchPoint) -> bool,
    pub equally_long: spec_fn(SketchPoint, SketchPoint, SketchPoint, SketchPoint) -> bool,
}

/// The place the first two variables of a span stand for.
pub open spec fn span_start(span: Span, vars: Seq<Scalar>) -> SketchPoint {
    SketchPoint { x: vars[span.ax as int], y: vars[span.ay as int] }
}

/// The place the last two variables of a span stand for.
pub open spec fn span_end(span: Span, vars: Seq<Scalar>) -> SketchPoint {
    SketchPoint { x: vars[span.bx as int], y: vars[span.by as int] }
}

/// Whether an expression is zero on some values of the variables.
pub open spec fn vanishes(residual: Residual, vars: Seq<Scalar>, g: Geometry) -> bool {
    match residual {
        Residual::Pin { var, value } => vars[var as int].equals(value),
        Residual::Equal { a, b } => vars[a as int].equals(vars[b as int]),
        Residual::Distance { span, value } => (g.distance)(
            span_start(span, vars),
            span_end(span, vars),
        ).equals(value),
        Residual::Parallel { first, second } => (g.parallel)(
            span_start(first, vars),
            span_end(first, vars),
            span_start(second, vars),
            span_end(second, vars),
        ),
        Residual::Perpendicular { first, second } => (g.perpendicular)(
            span_start(first, vars),
            span_end(first, vars),
            span_start(second, vars),
            span_end(second, vars),
        ),
        Residual::EqualLength { first, second } => (g.equally_long)(
            span_start(first, vars),
            span_end(first, vars),
            span_start(second, vars),
            span_end(second, vars),
        ),
    }
}

/// All of some expressions are zero.
pub open spec fn all_vanish(residuals: Seq<Residual>, vars: Seq<Scalar>, g: Geometry) -> bool {
    forall|i: int| 0 <= i < residuals.len() ==> vanishes(#[trigger] residuals[i], vars, g)
}

/// Whether the sketch `now` meets a constraint. A fixed point is to be where it was
/// in `before`.
pub open spec fn meets(before: SketchModel, now: SketchModel, c: Constraint, g: Geometry) -> bool {
    match c {
        Constraint::Fixed(p) => now.points[p.0 as int].equals(before.points[p.0 as int]),
        Constraint::Coincident(a, b) => now.points[a.0 as int].equals(now.points[b.0 as int]),
        Constraint::Horizontal(l) => {
            let line = now.lines[l.0 as int];
            now.points[line.a.0 as int].y.equals(now.points[line.b.0 as int].y)
        },
        Constraint::Vertical(l) => {
            let line = now.lines[l.0 as int];
            now.points[line.a.0 as int].x.equals(now.points[line.b.0 as int].x)
        },
        Constraint::Distance(a, b, value) => (g.distance)(
            now.points[a.0 as int],
            now.points[b.0 as int],
        ).equals(value),
        Constraint::Parallel(l, m) => on_ends(now, l.0 as int, m.0 as int, g.parallel),
        Constraint::Perpendicular(l, m) => on_ends(now, l.0 as int, m.0 as int, g.perpendicular),
        Constraint::EqualLength(l, m) => on_ends(now, l.0 as int, m.0 as int, g.equally_long),
        Constraint::Radius(c, value) => now.circles[c.0 as int].radius.equals(value),
    }
}

/// What is said of the ends of two lines of a sketch.
pub open spec fn on_ends(
    s: SketchModel,
    l: int,
    m: int,
    said: spec_fn(SketchPoint, SketchPoint, SketchPoint, SketchPoint) -> bool,
) -> bool {
    let (first, second): (SketchLine, SketchLine) = (s.lines[l], s.lines[m]);
    said(
        s.points[first.a.0 as int],
        s.points[first.b.0 as int],
        s.points[second.a.0 as int],
        s.points[second.b.0 as int],
    )
}

/// The equations of a constraint are zero on some values exactly if the sketch with
/// those values written back meets the constraint. Fixing a point and joining two
/// take two equations, one along each axis, and every other constraint takes one.
pub proof fn law_equations_say_what_the_constraint_does(
    s: SketchModel,
    c: Constraint,
    vars: Seq<Scalar>,
    g: Geometry,
)
    requires
        s.constraint_known(c),
        s.variables() <= usize::MAX,
        vars.len() == s.variables(),
    ensures
        all_vanish(s.equations_of(c), vars, g) == meets(s, s.unpacked(vars), c, g),
        s.equations_of(c).len() == (if c is Fixed || c is Coincident {
            2nat
        } else {
            1
        }),
{
    let own = s.equations_of(c);
    let now = s.unpacked(vars);
    if all_vanish(own, vars, g) {
        assert(vanishes(own[0], vars, g));
        if own.len() == 2 {
            assert(vanishes(own[1], vars, g));
        }
    }
    if meets(s, now, c, g) {
        assert forall|i: int| 0 <= i < own.len() implies vanishes(#[trigger] own[i], vars, g) by {
            assert(i == 0 || i == 1);
        }
    }
}

/// The equations of a sketch are all zero on some values exactly if the sketch with
/// those values written back meets every constraint.
pub proof fn law_solving_meets_the_constraints(s: SketchModel, vars: Seq<Scalar>, g: Geometry)
    requires
        s.solvable(),
        vars.len() == s.variables(),
    ensures
        all_vanish(s.equations(s.constraints.len()), vars, g) == (forall|i: int|
            0 <= i < s.constraints.len() ==> meets(
                s,
                s.unpacked(vars),
                #[trigger] s.constraints[i],
                g,
            )),
{
    lemma_meets_upto(s, s.constraints.len(), vars, g);
}

proof fn lemma_meets_upto(s: SketchModel, n: nat, vars: Seq<Scalar>, g: Geometry)
    requires
        s.solvable(),
        n <= s.constraints.len(),
        vars.len() == s.variables(),
    ensures
        all_vanish(s.equations(n), vars, g) == (forall|i: int|
            0 <= i < n ==> meets(s, s.unpacked(vars), #[trigger] s.constraints[i], g)),
    decreases n,
{
    if n > 0 {
        lemma_meets_upto(s, (n - 1) as nat, vars, g);
        let before = s.equations((n - 1) as nat);
        let own = s.equations_of(s.constraints[n - 1]);
        let all = s.equations(n);
        law_equations_say_what_the_constraint_does(s, s.constraints[n - 1], vars, g);
        if all_vanish(all, vars, g) {
            assert forall|i: int| 0 <= i < before.len() implies vanishes(
                #[trigger] before[i],
                vars,
                g,
            ) by {
                assert(all[i] == before[i]);
            }
            assert forall|i: int| 0 <= i < own.len() implies vanishes(
                #[trigger] own[i],
                vars,
                g,
            ) by {
                assert(all[before.len() + i] == own[i]);
            }
        }
        if all_vanish(before, vars, g) && all_vanish(own, vars, g) {
            assert forall|i: int| 0 <= i < all.len() implies vanishes(
                #[trigger] all[i],
                vars,
                g,
            ) by {
                if i < before.len() {
                    assert(all[i] == before[i]);
                } else {
                    assert(all[i] == own[i - before.len()]);
                }
            }
        }
    }
}

/// Each variable is one number of the sketch: changing one moves one point or resizes
/// one circle, and nothing else.
pub proof fn law_a_variable_is_one_number(s: SketchModel, vars: Seq<Scalar>, j: int)
    requires
        vars.len() == s.variables(),
        0 <= j < vars.len(),
        forall|k: int| 0 <= k < vars.len() && k != j ==> vars[k] == #[trigger] s.packed()[k],
    ensures
        touched_once(s, s.unpacked(vars)),
{
    let now = s.unpacked(vars);
    let n = s.points.len();
    let at = if j < 2 * n {
        j / 2
    } else {
        -1
    };
    let circle = if j < 2 * n {
        -1
    } else {
        j - 2 * n
    };
    assert forall|p: int| 0 <= p < n && p != at implies now.points[p] == s.points[p] by {
        assert(2 * p != j && 2 * p + 1 != j);
        assert(vars[2 * p] == s.packed()[2 * p]);
        assert(vars[2 * p + 1] == s.packed()[2 * p + 1]);
    }
    assert forall|c: int| 0 <= c < s.circles.len() && c != circle implies now.circles[c]
        == s.circles[c] by {
        assert(vars[2 * n + c] == s.packed()[2 * n + c]);
    }
    assert(same_but(s, now, at, circle));
}

/// All points but `p` and all circles but `c` are the same in both sketches.
pub open spec fn same_but(s: SketchModel, t: SketchModel, p: int, c: int) -> bool {
    &&& forall|i: int| 0 <= i < s.points.len() && i != p ==> t.points[i] == s.points[i]
    &&& forall|i: int| 0 <= i < s.circles.len() && i != c ==> t.circles[i] == s.circles[i]
}

/// The sketches differ in one point or one circle at most.
pub open spec fn touched_once(s: SketchModel, t: SketchModel) -> bool {
    exists|p: int, c: int| (p < 0 || c < 0) && #[trigger] same_but(s, t, p, c)
}

/// A sketch can be turned into equations exactly if everything its constraints name is
/// there, and its variables can be counted.
pub proof fn law_when_a_sketch_can_be_solved(s: SketchModel)
    ensures
        s.solvable() == ((forall|i: int|
            0 <= i < s.constraints.len() ==> ({
                let c = #[trigger] s.constraints[i];
                &&& forall|k: int|
                    0 <= k < points_named(s, c).len() ==> (#[trigger] points_named(s, c)[k])
                        < s.points.len()
                &&& forall|k: int|
                    0 <= k < lines_named(c).len() ==> (#[trigger] lines_named(c)[k])
                        < s.lines.len()
                &&& c matches Constraint::Radius(circle, _) ==> circle.0 < s.circles.len()
            })) && 2 * s.points.len() + s.circles.len() <= usize::MAX),
{
    assert forall|i: int| 0 <= i < s.constraints.len() implies s.constraint_known(
        #[trigger] s.constraints[i],
    ) == ({
        let c = s.constraints[i];
        &&& forall|k: int|
            0 <= k < points_named(s, c).len() ==> (#[trigger] points_named(s, c)[k])
                < s.points.len()
        &&& forall|k: int|
            0 <= k < lines_named(c).len() ==> (#[trigger] lines_named(c)[k]) < s.lines.len()
        &&& c matches Constraint::Radius(circle, _) ==> circle.0 < s.circles.len()
    }) by {
        let c = s.constraints[i];
        let (points, lines) = (points_named(s, c), lines_named(c));
        if (forall|k: int| 0 <= k < points.len() ==> (#[trigger] points[k]) < s.points.len())
            && forall|k: int| 0 <= k < lines.len() ==> (#[trigger] lines[k]) < s.lines.len() {
            assert(points.len() > 0 ==> points[0] < s.points.len());
            assert(points.len() > 1 ==> points[1] < s.points.len());
            assert(points.len() > 2 ==> points[2] < s.points.len());
            assert(points.len() > 3 ==> points[3] < s.points.len());
            assert(lines.len() > 0 ==> lines[0] < s.lines.len());
            assert(lines.len() > 1 ==> lines[1] < s.lines.len());
        }
    }
    if s.solvable() {
        assert forall|i: int| 0 <= i < s.constraints.len() implies ({
            let c = #[trigger] s.constraints[i];
            &&& forall|k: int|
                0 <= k < points_named(s, c).len() ==> (#[trigger] points_named(s, c)[k])
                    < s.points.len()
            &&& forall|k: int|
                0 <= k < lines_named(c).len() ==> (#[trigger] lines_named(c)[k]) < s.lines.len()
            &&& c matches Constraint::Radius(circle, _) ==> circle.0 < s.circles.len()
        }) by {
            assert(s.constraint_known(s.constraints[i]));
        }
    }
}

/// The lines a constraint names.
pub open spec fn lines_named(c: Constraint) -> Seq<usize> {
    match c {
        Constraint::Horizontal(l) => seq![l.0],
        Constraint::Vertical(l) => seq![l.0],
        Constraint::Parallel(l, m) => seq![l.0, m.0],
        Constraint::Perpendicular(l, m) => seq![l.0, m.0],
        Constraint::EqualLength(l, m) => seq![l.0, m.0],
        _ => seq![],
    }
}

/// The points a constraint names, itself or as the ends of its lines.
pub open spec fn points_named(s: SketchModel, c: Constraint) -> Seq<usize> {
    match c {
        Constraint::Fixed(p) => seq![p.0],
        Constraint::Coincident(p, q) => seq![p.0, q.0],
        Constraint::Distance(p, q, _) => seq![p.0, q.0],
        Constraint::Horizontal(l) => seq![s.lines[l.0 as int].a.0, s.lines[l.0 as int].b.0],
        Constraint::Vertical(l) => seq![s.lines[l.0 as int].a.0, s.lines[l.0 as int].b.0],
        Constraint::Parallel(l, m) => ends_of_two(s, l.0 as int, m.0 as int),
        Constraint::Perpendicular(l, m) => ends_of_two(s, l.0 as int, m.0 as int),
        Constraint::EqualLength(l, m) => ends_of_two(s, l.0 as int, m.0 as int),
        Constraint::Radius(..) => seq![],
    }
}

/// The ends of two lines.
pub open spec fn ends_of_two(s: SketchModel, l: int, m: int) -> Seq<usize> {
    seq![s.lines[l].a.0, s.lines[l].b.0, s.lines[m].a.0, s.lines[m].b.0]
}

} // verus!
