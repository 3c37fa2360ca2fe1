//! A sketch as a system of equations.
//!
//! Every point contributes two variables and every circle one. Each constraint
//! becomes one or two equations over them, described as data: which variables it
//! relates and how. What drives the equations to zero works on plain numbers and
//! stands outside; the solved values are written back here.

use crate::scalar::Scalar;
use crate::sketch::{CircleId, Constraint, LineId, PointId, SketchCircle, SketchPoint};
use crate::sketch2d::{Sketch2d, SketchModel};
use vstd::prelude::*;

verus! {

/// Two points, as the indices of their variables.
#[derive(Clone, Copy, PartialEq, Eq, Debug, Structural)]
pub struct Span {
    pub ax: usize,
    pub ay: usize,
    pub bx: usize,
    pub by: usize,
}

/// An expression over the variables that is to become zero.
#[derive(Clone, Copy, Debug)]
pub enum Residual {
    /// A variable less a value.
    Pin { var: usize, value: Scalar },
    /// A variable less another.
    Equal { a: usize, b: usize },
    /// The length of a span less a value.
    Distance { span: Span, value: Scalar },
    /// The cross product of two spans.
    Parallel { first: Span, second: Span },
    /// The dot product of two spans.
    Perpendicular { first: Span, second: Span },
    /// The length of a span less that of another.
    EqualLength { first: Span, second: Span },
}

/// How a solve went.
#[derive(Clone, Copy, Debug)]
pub struct SolveReport {
    pub converged: bool,
    pub iterations: usize,
    /// The largest residual left, without its sign.
    pub residual_norm: Scalar,
}

/// The result of solving a sketch.
#[derive(Clone, Copy, Debug)]
pub struct SketchSolution {
    pub report: SolveReport,
    /// How many variables there were: two per point and one per circle.
    pub variables: usize,
    /// How many equations there were.
    pub equations: usize,
    /// Variables less independent equations. Zero means nothing can move.
    pub degrees_of_freedom: usize,
}

impl SketchSolution {
    /// The solution of a system whose equations have the given rank.
    pub fn of(report: SolveReport, variables: usize, equations: usize, rank: usize) -> (r:
        SketchSolution)
        ensures
            r.report == report,
            r.variables == variables,
            r.equations == equations,
            r.degrees_of_freedom == (if variables > rank {
                variables - rank
            } else {
                0
            }),
    {
        SketchSolution {
            report,
            variables,
            equations,
            degrees_of_freedom: if variables > rank {
                variables - rank
            } else {
                0
            },
        }
    }

    /// Whether nothing can move.
    pub fn is_fully_constrained(&self) -> (r: bool)
        ensures
            r == (self.degrees_of_freedom == 0),
    {
        self.degrees_of_freedom == 0
    }
}

/// The index of a point's `x`.
pub open spec fn var_x(p: PointId) -> int {
    2 * p.0
}

/// The index of a point's `y`.
pub open spec fn var_y(p: PointId) -> int {
    2 * p.0 + 1
}

/// The span between two points.
pub open spec fn span_of(a: PointId, b: PointId) -> Span {
    Span {
        ax: var_x(a) as usize,
        ay: var_y(a) as usize,
        bx: var_x(b) as usize,
        by: var_y(b) as usize,
    }
}

impl SketchModel {
    /// How many variables the sketch has.
    pub open spec fn variables(self) -> nat {
        2 * self.points.len() + self.circles.len()
    }

    /// The index of a circle's radius.
    pub open spec fn var_radius(self, c: CircleId) -> int {
        2 * self.points.len() + c.0
    }

    /// The variables, in order: each point's `x` and `y`, then each radius.
    pub open spec fn packed(self) -> Seq<Scalar> {
        Seq::new(
            self.variables(),
            |i: int|
                if i < 2 * self.points.len() {
                    if i % 2 == 0 {
                        self.points[i / 2].x
                    } else {
                        self.points[i / 2].y
                    }
                } else {
                    self.circles[i - 2 * self.points.len()].radius
                },
        )
    }

    /// The sketch with its variables set.
    pub open spec fn unpacked(self, vars: Seq<Scalar>) -> SketchModel {
        SketchModel {
            points: Seq::new(
                self.points.len(),
                |i: int| SketchPoint { x: vars[2 * i], y: vars[2 * i + 1] },
            ),
            circles: Seq::new(
                self.circles.len(),
                |j: int|
                    SketchCircle {
                        center: self.circles[j].center,
                        radius: vars[2 * self.points.len() + j],
                    },
            ),
            ..self
        }
    }

    /// The line exists and so do its ends.
    pub open spec fn has_line(self, l: LineId) -> bool {
        l.0 < self.lines.len() && self.has_point(self.lines[l.0 as int].a) && self.has_point(
            self.lines[l.0 as int].b,
        )
    }

    /// The span of a line.
    pub open spec fn line_span(self, l: LineId) -> Span {
        span_of(self.lines[l.0 as int].a, self.lines[l.0 as int].b)
    }

    /// What the constraint speaks of exists.
    pub open spec fn constraint_known(self, c: Constraint) -> bool {
        match c {
            Constraint::Fixed(p) => self.has_point(p),
            Constraint::Coincident(a, b) => self.has_point(a) && self.has_point(b),
            Constraint::Horizontal(l) => self.has_line(l),
            Constraint::Vertical(l) => self.has_line(l),
            Constraint::Distance(a, b, _) => self.has_point(a) && self.has_point(b),
            Constraint::Parallel(l, m) => self.has_line(l) && self.has_line(m),
            Constraint::Perpendicular(l, m) => self.has_line(l) && self.has_line(m),
            Constraint::EqualLength(l, m) => self.has_line(l) && self.has_line(m),
            Constraint::Radius(c, _) => c.0 < self.circles.len(),
        }
    }

    /// Everything the constraints speak of exists.
    pub open spec fn solvable(self) -> bool {
        &&& forall|i: int|
            0 <= i < self.constraints.len() ==> self.constraint_known(
                #[trigger] self.constraints[i],
            )
        &&& self.variables() <= usize::MAX
    }

    /// The equations of one constraint. A fixed point is held where it is now.
    pub open spec fn equations_of(self, c: Constraint) -> Seq<Residual> {
        match c {
            Constraint::Fixed(p) => seq![
                Residual::Pin { var: var_x(p) as usize, value: self.points[p.0 as int].x },
                Residual::Pin { var: var_y(p) as usize, value: self.points[p.0 as int].y },
            ],
            Constraint::Coincident(a, b) => seq![
                Residual::Equal { a: var_x(a) as usize, b: var_x(b) as usize },
                Residual::Equal { a: var_y(a) as usize, b: var_y(b) as usize },
            ],
            Constraint::Horizontal(l) => seq![
                Residual::Equal { a: self.line_span(l).ay, b: self.line_span(l).by },
            ],
            Constraint::Vertical(l) => seq![
                Residual::Equal { a: self.line_span(l).ax, b: self.line_span(l).bx },
            ],
            Constraint::Distance(a, b, value) => seq![
                Residual::Distance { span: span_of(a, b), value },
            ],
            Constraint::Parallel(l, m) => seq![
                Residual::Parallel { first: self.line_span(l), second: self.line_span(m) },
            ],
            Constraint::Perpendicular(l, m) => seq![
                Residual::Perpendicular { first: self.line_span(l), second: self.line_span(m) },
            ],
            Constraint::EqualLength(l, m) => seq![
                Residual::EqualLength { first: self.line_span(l), second: self.line_span(m) },
            ],
            Constraint::Radius(c, value) => seq![
                Residual::Pin { var: self.var_radius(c) as usize, value },
            ],
        }
    }

    /// The equations of the first `n` constraints, in order.
    pub open spec fn equations(self, n: nat) -> Seq<Residual>
        decreases n,
    {
        if n == 0 {
            seq![]
        } else {
            self.equations((n - 1) as nat) + self.equations_of(self.constraints[n - 1])
        }
    }
}

fn span_between(a: PointId, b: PointId) -> (r: Span)
    requires
        2 * a.0 + 1 <= usize::MAX,
        2 * b.0 + 1 <= usize::MAX,
    ensures
        r == span_of(a, b),
{
    Span { ax: 2 * a.0, ay: 2 * a.0 + 1, bx: 2 * b.0, by: 2 * b.0 + 1 }
}

impl Sketch2d {
    /// The variables of the sketch, in order.
    pub fn pack(&self) -> (vars: Vec<Scalar>)
        requires
            self@.variables() <= usize::MAX,
        ensures
            vars@ == self@.packed(),
    {
        let mut vars: Vec<Scalar> = Vec::new();
        let n: usize = self.points.len();
        let mut i: usize = 0;
        while i < n
            invariant
                i <= n == self@.points.len(),
                self@.variables() <= usize::MAX,
                vars@ == self@.packed().take(2 * i),
            decreases n - i,
        {
            let p = self.points[i];
            vars.push(p.x);
            vars.push(p.y);
            i += 1;
            proof {
                assert(vars@ =~= self@.packed().take(2 * i));
            }
        }
        let mut j: usize = 0;
        while j < self.circles.len()
            invariant
                n == self@.points.len(),
                j <= self@.circles.len(),
                vars@ == self@.packed().take(2 * n + j),
            decreases self@.circles.len() - j,
        {
            vars.push(self.circles[j].radius);
            j += 1;
            proof {
                assert(vars@ =~= self@.packed().take(2 * n + j));
            }
        }
        proof {
            assert(self@.packed().take(2 * n + j) =~= self@.packed());
        }
        vars
    }

    /// Write solved variables back.
    pub fn unpack(&mut self, vars: &Vec<Scalar>)
        requires
            vars@.len() == old(self)@.variables(),
        ensures
            final(self)@ == old(self)@.unpacked(vars@),
    {
        let ghost before = self@;
        let total: usize = vars.len();
        let n: usize = self.points.len();
        let mut i: usize = 0;
        while i < n
            invariant
                i <= n == before.points.len(),
                total == vars@.len() == before.variables(),
                self@.points.len() == n,
                self@ == (SketchModel { points: self@.points, ..before }),
                forall|k: int|
                    0 <= k < i ==> #[trigger] self@.points[k] == (SketchPoint {
                        x: vars@[2 * k],
                        y: vars@[2 * k + 1],
                    }),
            decreases n - i,
        {
            self.points.set(i, SketchPoint { x: vars[2 * i], y: vars[2 * i + 1] });
            i += 1;
        }
        let ghost points = self@.points;
        let m: usize = self.circles.len();
        let mut j: usize = 0;
        while j < m
            invariant
                j <= m == before.circles.len(),
                n == before.points.len(),
                total == vars@.len() == before.variables(),
                self@.circles.len() == m,
                self@ == (SketchModel { points, circles: self@.circles, ..before }),
                forall|k: int|
                    0 <= k < m ==> #[trigger] self@.circles[k] == (SketchCircle {
                        center: before.circles[k].center,
                        radius: if k < j {
                            vars@[2 * n + k]
                        } else {
                            before.circles[k].radius
                        },
                    }),
            decreases m - j,
        {
            let center = self.circles[j].center;
            self.circles.set(j, SketchCircle { center, radius: vars[2 * n + j] });
            j += 1;
        }
        proof {
            assert(self@ =~= before.unpacked(vars@));
        }
    }

    fn line_span(&self, l: LineId) -> (r: Span)
        requires
            self@.has_line(l),
            self@.variables() <= usize::MAX,
        ensures
            r == self@.line_span(l),
    {
        let line = self.lines[l.0];
        span_between(line.a, line.b)
    }

    fn knows_line(&self, l: LineId) -> (r: bool)
        ensures
            r == self@.has_line(l),
    {
        l.0 < self.lines.len() && self.lines[l.0].a.0 < self.points.len() && self.lines[l.0].b.0
            < self.points.len()
    }

    fn knows_constraint(&self, c: Constraint) -> (r: bool)
        ensures
            r == self@.constraint_known(c),
    {
        let n: usize = self.points.len();
        match c {
            Constraint::Fixed(p) => p.0 < n,
            Constraint::Coincident(a, b) => a.0 < n && b.0 < n,
            Constraint::Horizontal(l) => self.knows_line(l),
            Constraint::Vertical(l) => self.knows_line(l),
            Constraint::Distance(a, b, _) => a.0 < n && b.0 < n,
            Constraint::Parallel(l, m) => self.knows_line(l) && self.knows_line(m),
            Constraint::Perpendicular(l, m) => self.knows_line(l) && self.knows_line(m),
            Constraint::EqualLength(l, m) => self.knows_line(l) && self.knows_line(m),
            Constraint::Radius(c, _) => c.0 < self.circles.len(),
        }
    }

    /// Whether everything the constraints speak of exists, as it does in any sketch
    /// whose constraints were taken from it; one read from a file may be otherwise.
    pub fn is_solvable(&self) -> (r: bool)
        ensures
            r == self@.solvable(),
    {
        let mut i: usize = 0;
        while i < self.constraints.len()
            invariant
                i <= self@.constraints.len(),
                forall|k: int|
                    0 <= k < i ==> self@.constraint_known(#[trigger] self@.constraints[k]),
            decreases self@.constraints.len() - i,
        {
            if !self.knows_constraint(self.constraints[i]) {
                assert(!self@.constraint_known(self@.constraints[i as int]));
                return false;
            }
            i += 1;
        }
        2 * self.points.len() as u128 + self.circles.len() as u128 <= usize::MAX as u128
    }

    /// The equations the constraints stand for, in order.
    pub fn residuals(&self) -> (r: Vec<Residual>)
        requires
            self@.solvable(),
        ensures
            r@ == self@.equations(self@.constraints.len()),
    {
        let mut out: Vec<Residual> = Vec::new();
        let mut i: usize = 0;
        while i < self.constraints.len()
            invariant
                self@.solvable(),
                i <= self@.constraints.len(),
                out@ == self@.equations(i as nat),
            decreases self@.constraints.len() - i,
        {
            let c = self.constraints[i];
            let ghost before = out@;
            assert(self@.constraint_known(self@.constraints[i as int]));
            match c {
                Constraint::Fixed(p) => {
                    let at = self.points[p.0];
                    out.push(Residual::Pin { var: 2 * p.0, value: at.x });
                    out.push(Residual::Pin { var: 2 * p.0 + 1, value: at.y });
                },
                Constraint::Coincident(a, b) => {
                    out.push(Residual::Equal { a: 2 * a.0, b: 2 * b.0 });
                    out.push(Residual::Equal { a: 2 * a.0 + 1, b: 2 * b.0 + 1 });
                },
                Constraint::Horizontal(l) => {
                    let span = self.line_span(l);
                    out.push(Residual::Equal { a: span.ay, b: span.by });
                },
                Constraint::Vertical(l) => {
                    let span = self.line_span(l);
                    out.push(Residual::Equal { a: span.ax, b: span.bx });
                },
                Constraint::Distance(a, b, value) => {
                    out.push(Residual::Distance { span: span_between(a, b), value });
                },
                Constraint::Parallel(l, m) => {
                    let (first, second) = (self.line_span(l), self.line_span(m));
                    out.push(Residual::Parallel { first, second });
                },
                Constraint::Perpendicular(l, m) => {
                    let (first, second) = (self.line_span(l), self.line_span(m));
                    out.push(Residual::Perpendicular { first, second });
                },
                Constraint::EqualLength(l, m) => {
                    let (first, second) = (self.line_span(l), self.line_span(m));
                    out.push(Residual::EqualLength { first, second });
                },
                Constraint::Radius(circle, value) => {
                    out.push(Residual::Pin { var: 2 * self.points.len() + circle.0, value });
                },
            }
            proof {
                assert(out@ =~= before + self@.equations_of(c));
            }
            i += 1;
        }
        out
    }
}

impl Span {
    /// Every variable of the span is below `n`.
    pub open spec fn below(self, n: nat) -> bool {
        self.ax < n && self.ay < n && self.bx < n && self.by < n
    }
}

impl Residual {
    /// Every variable the expression reads is below `n`.
    pub open spec fn below(self, n: nat) -> bool {
        match self {
            Residual::Pin { var, .. } => var < n,
            Residual::Equal { a, b } => a < n && b < n,
            Residual::Distance { span, .. } => span.below(n),
            Residual::Parallel { first, second } => first.below(n) && second.below(n),
            Residual::Perpendicular { first, second } => first.below(n) && second.below(n),
            Residual::EqualLength { first, second } => first.below(n) && second.below(n),
        }
    }
}

/// Equations read only variables there are.
pub proof fn law_equations_stay_in_range(s: SketchModel, n: nat)
    requires
        s.solvable(),
        n <= s.constraints.len(),
    ensures
        forall|i: int|
            0 <= i < s.equations(n).len() ==> (#[trigger] s.equations(n)[i]).below(s.variables()),
    decreases n,
{
    if n > 0 {
        law_equations_stay_in_range(s, (n - 1) as nat);
        let before = s.equations((n - 1) as nat);
        let own = s.equations_of(s.constraints[n - 1]);
        assert(s.constraint_known(s.constraints[n - 1]));
        assert forall|i: int| 0 <= i < s.equations(n).len() implies (
        #[trigger] s.equations(n)[i]).below(s.variables()) by {
            if i < before.len() {
                assert(s.equations(n)[i] == before[i]);
            } else {
                assert(s.equations(n)[i] == own[i - before.len()]);
            }
        }
    }
}

/// Writing back the variables a sketch was packed into changes nothing, and what
/// is written back is what is packed next.
pub proof fn law_packing_round_trips(s: SketchModel, vars: Seq<Scalar>)
    requires
        vars.len() == s.variables(),
    ensures
        s.unpacked(s.packed()) == s,
        s.unpacked(vars).packed() == vars,
{
    assert(s.unpacked(s.packed()) =~= s) by {
        assert(s.unpacked(s.packed()).points =~= s.points);
        assert(s.unpacked(s.packed()).circles =~= s.circles);
    }
    let t = s.unpacked(vars);
    assert forall|i: int| 0 <= i < vars.len() implies t.packed()[i] == vars[i] by {
        if i < 2 * s.points.len() {
            assert(2 * (i / 2) + i % 2 == i);
        }
    }
    assert(t.packed() =~= vars);
}

/// Solving moves points and resizes circles, and nothing else: the lines, the
/// constraints and what they speak of stay as they were.
pub proof fn law_solving_keeps_the_topology(s: SketchModel, vars: Seq<Scalar>)
    ensures
        s.unpacked(vars).lines == s.lines,
        s.unpacked(vars).beziers == s.beziers,
        s.unpacked(vars).constraints == s.constraints,
        s.unpacked(vars).points.len() == s.points.len(),
        s.unpacked(vars).circles.len() == s.circles.len(),
        s.unpacked(vars).loop_order() == s.loop_order(),
{
    assert(s.unpacked(vars).line_segments() =~= s.line_segments());
}

} // verus!
