//! The course of a solve.
//!
//! A system of equations is driven to zero by damped least squares: the
//! equations are made linear where they are, damped steps are tried, each refused
//! one with more damping, until one lowers the cost, and all again from there.
//! What is decided on the way stands here: which step is kept, when to damp more,
//! when to stop, which row is the pivot of an elimination, and how independent
//! equations are counted. The numbers come from outside.

use crate::scalar::Scalar;
use crate::solver::SolveReport;
use vstd::prelude::*;

verus! {

/// How many damped steps are tried before giving up.
pub const TRIES: u32 = 12;

/// How a solve is tuned.
#[derive(Clone, Copy, Debug)]
pub struct SolveOptions {
    pub max_iterations: usize,
    /// The residual that is small enough.
    pub tolerance: Scalar,
    /// The damping to begin with.
    pub initial_lambda: Scalar,
}

impl Default for SolveOptions {
    fn default() -> (r: SolveOptions)
        ensures
            r == (SolveOptions {
                max_iterations: 100,
                tolerance: Scalar { bits: 0x3e11_2e0b_e826_d695 },
                initial_lambda: Scalar { bits: 0x3f50_624d_d2f1_a9fc },
            }),
            crate::scalar_laws::is_nearest(
                r.tolerance,
                1,
                1000000000,
                82,
                0x4_0000_0000_0000_0000_0000,
            ),
            crate::scalar_laws::is_nearest(r.initial_lambda, 1, 1000, 62, 0x4000_0000_0000_0000),
    {
        SolveOptions {
            max_iterations: 100,
            tolerance: Scalar::from_bits(0x3e11_2e0b_e826_d695),
            initial_lambda: Scalar::from_bits(0x3f50_624d_d2f1_a9fc),
        }
    }
}

/// The largest magnitude among the residuals, or zero.
pub open spec fn worst_of(residuals: Seq<Scalar>) -> Scalar
    decreases residuals.len(),
{
    if residuals.len() == 0 {
        Scalar { bits: 0 }
    } else {
        worst_of(residuals.drop_last()).larger(magnitude_of(residuals.last()))
    }
}

/// The number without its sign.
pub open spec fn magnitude_of(v: Scalar) -> Scalar {
    Scalar { bits: v.magnitude() as u64 }
}

/// The largest magnitude among the residuals, or zero.
pub fn max_abs(residuals: &Vec<Scalar>) -> (r: Scalar)
    ensures
        r == worst_of(residuals@),
{
    let mut worst = Scalar::zero();
    let mut i: usize = 0;
    proof {
        assert(residuals@.take(0) =~= seq![]);
    }
    while i < residuals.len()
        invariant
            i <= residuals@.len(),
            worst == worst_of(residuals@.take(i as int)),
        decreases residuals@.len() - i,
    {
        proof {
            assert(residuals@.take(i + 1).drop_last() =~= residuals@.take(i as int));
        }
        worst = worst.max(residuals[i].abs());
        i += 1;
    }
    proof {
        assert(residuals@.take(i as int) =~= residuals@);
    }
    worst
}

/// The row of the largest magnitude among the first `n` of a column; the first of
/// several.
pub open spec fn largest_row(column: Seq<Scalar>, n: int) -> int
    decreases n,
{
    if n <= 1 {
        0
    } else {
        let before = largest_row(column, n - 1);
        if magnitude_of(column[before]).less(magnitude_of(column[n - 1])) {
            n - 1
        } else {
            before
        }
    }
}

/// The row of a column to eliminate with: that of the largest magnitude, unless
/// even that is below the tolerance.
pub fn pivot(column: &Vec<Scalar>, tolerance: Scalar) -> (r: Option<usize>)
    requires
        column@.len() > 0,
    ensures
        ({
            let row = largest_row(column@, column@.len() as int);
            match r {
                Some(i) => i == row && !magnitude_of(column@[row]).less(tolerance),
                None => magnitude_of(column@[row]).less(tolerance),
            }
        }),
{
    let mut best: usize = 0;
    let mut i: usize = 1;
    while i < column.len()
        invariant
            1 <= i <= column@.len(),
            best < i,
            best == largest_row(column@, i as int),
        decreases column@.len() - i,
    {
        if column[best].abs() < column[i].abs() {
            best = i;
        }
        i += 1;
    }
    if column[best].abs() < tolerance {
        None
    } else {
        Some(best)
    }
}

/// The pivot is a row of the column, and no magnitude in the column is larger,
/// where all of it are numbers.
pub proof fn law_the_pivot_is_largest(column: Seq<Scalar>, n: int, k: int)
    requires
        0 <= k < n <= column.len(),
        forall|i: int| 0 <= i < n ==> !(#[trigger] column[i]).nan(),
    ensures
        0 <= largest_row(column, n) < n,
        !magnitude_of(column[largest_row(column, n)]).less(magnitude_of(column[k])),
    decreases n,
{
    if n > 1 {
        if k < n - 1 {
            law_the_pivot_is_largest(column, n - 1, k);
        } else {
            law_the_pivot_is_largest(column, n - 1, 0);
        }
    }
}

/// Counting independent equations by elimination: the row and the column the
/// next pivot is looked for at, and how many were found.
#[derive(Clone, Copy, PartialEq, Eq, Debug, Structural)]
pub struct RankWalk {
    pub rows: usize,
    pub columns: usize,
    pub row: usize,
    pub column: usize,
    pub rank: usize,
}

impl RankWalk {
    /// One row was used up for every pivot, and at least one column.
    pub open spec fn well_formed(self) -> bool {
        &&& self.rank == self.row <= self.rows
        &&& self.rank <= self.column <= self.columns
    }

    /// Whether there is nowhere left to look.
    pub open spec fn over(self) -> bool {
        self.row >= self.rows || self.column >= self.columns
    }

    /// After a column with or without a pivot.
    pub open spec fn advanced(self, found: bool) -> RankWalk {
        RankWalk {
            row: if found {
                (self.row + 1) as usize
            } else {
                self.row
            },
            column: (self.column + 1) as usize,
            rank: if found {
                (self.rank + 1) as usize
            } else {
                self.rank
            },
            ..self
        }
    }

    /// Begin with a matrix of the given size.
    pub fn new(rows: usize, columns: usize) -> (r: RankWalk)
        ensures
            r == (RankWalk { rows, columns, row: 0, column: 0, rank: 0 }),
            r.well_formed(),
    {
        RankWalk { rows, columns, row: 0, column: 0, rank: 0 }
    }

    /// Where to look for the next pivot: the first row of those left, and the
    /// column.
    pub fn place(&self) -> (r: Option<(usize, usize)>)
        ensures
            r == (if self.over() {
                None
            } else {
                Some((self.row, self.column))
            }),
    {
        if self.row < self.rows && self.column < self.columns {
            Some((self.row, self.column))
        } else {
            None
        }
    }

    /// Go on after a column with or without a pivot.
    pub fn advance(&mut self, found: bool)
        requires
            old(self).well_formed(),
            !old(self).over(),
        ensures
            *final(self) == old(self).advanced(found),
            final(self).well_formed(),
    {
        self.column = self.column + 1;
        if found {
            self.row = self.row + 1;
            self.rank = self.rank + 1;
        }
    }
}

/// There are never more independent equations than equations, nor than
/// variables, and every step leaves fewer columns to look at.
pub proof fn law_rank_is_bounded(walk: RankWalk, found: bool)
    requires
        walk.well_formed(),
    ensures
        walk.rank <= walk.rows,
        walk.rank <= walk.columns,
        !walk.over() ==> walk.advanced(found).well_formed() && walk.advanced(found).columns
            - walk.advanced(found).column < walk.columns - walk.column,
{
}

/// What a solve is doing.
#[derive(Clone, Copy, PartialEq, Eq, Debug, Structural)]
pub enum Phase {
    /// The equations are to be made linear.
    Linearise,
    /// A damped step is to be tried; so many were refused since.
    Try { refused: u32 },
    Done,
}

/// A solve under way.
#[derive(Clone, Copy, Debug)]
pub struct Descent {
    pub options: SolveOptions,
    pub phase: Phase,
    pub iterations: usize,
    /// The damping.
    pub lambda: Scalar,
    /// The sum of the squared residuals.
    pub cost: Scalar,
    /// The largest residual, without its sign.
    pub worst: Scalar,
}

impl Descent {
    /// Whether the residuals are small enough.
    pub open spec fn good(self) -> bool {
        crate::drags::at_most(self.worst, self.options.tolerance)
    }

    /// Whether another round is worth it and allowed.
    pub open spec fn goes_on(self) -> bool {
        !self.good() && self.iterations < self.options.max_iterations
    }

    /// Into the next round, or done.
    pub open spec fn continued(self) -> Descent {
        if self.goes_on() {
            Descent {
                phase: Phase::Linearise,
                iterations: (self.iterations + 1) as usize,
                ..self
            }
        } else {
            Descent { phase: Phase::Done, ..self }
        }
    }

    /// A system with nothing to move or nothing to meet is done at once.
    pub open spec fn begun(
        options: SolveOptions,
        variables: usize,
        equations: usize,
        cost: Scalar,
        worst: Scalar,
    ) -> Descent {
        let at_rest = Descent {
            options,
            phase: Phase::Done,
            iterations: 0,
            lambda: options.initial_lambda,
            cost,
            worst,
        };
        if variables == 0 || equations == 0 {
            at_rest
        } else {
            at_rest.continued()
        }
    }

    /// A step was refused, or could not be worked out: damp more and try again,
    /// or give up.
    pub open spec fn refused(self, more: Scalar) -> Descent {
        match self.phase {
            Phase::Try { refused } => Descent {
                phase: if refused + 1 < TRIES {
                    Phase::Try { refused: (refused + 1) as u32 }
                } else {
                    Phase::Done
                },
                lambda: more,
                ..self
            },
            _ => self,
        }
    }

    /// A step that leads to the given cost is kept if it lowers it; the damping
    /// is then relaxed, but never below a trillionth.
    pub open spec fn stepped(
        self,
        cost: Scalar,
        worst: Scalar,
        less: Scalar,
        more: Scalar,
    ) -> Descent {
        if cost.less(self.cost) {
            (Descent {
                cost,
                worst,
                lambda: less.larger(Scalar { bits: 0x3d71_9799_812d_ea11 }),
                ..self
            }).continued()
        } else {
            self.refused(more)
        }
    }

    /// Begin, with the cost and the largest residual where the variables are.
    pub fn start(
        options: SolveOptions,
        variables: usize,
        equations: usize,
        cost: Scalar,
        worst: Scalar,
    ) -> (r: Descent)
        ensures
            r == Descent::begun(options, variables, equations, cost, worst),
    {
        let mut r = Descent {
            options,
            phase: Phase::Done,
            iterations: 0,
            lambda: options.initial_lambda,
            cost,
            worst,
        };
        if variables > 0 && equations > 0 {
            r.go_on();
        }
        r
    }

    fn go_on(&mut self)
        ensures
            *final(self) == old(self).continued(),
    {
        let good = self.worst < self.options.tolerance || self.worst == self.options.tolerance;
        if !good && self.iterations < self.options.max_iterations {
            self.phase = Phase::Linearise;
            self.iterations = self.iterations + 1;
        } else {
            self.phase = Phase::Done;
        }
    }

    /// The equations were made linear: try damped steps.
    pub fn linearised(&mut self)
        requires
            old(self).phase == Phase::Linearise,
        ensures
            *final(self) == (Descent { phase: Phase::Try { refused: 0 }, ..*old(self) }),
    {
        self.phase = Phase::Try { refused: 0 };
    }

    /// A step could not be worked out. `more` is four times the damping.
    pub fn singular(&mut self, more: Scalar)
        requires
            old(self).phase is Try,
            old(self).phase->refused < TRIES,
        ensures
            *final(self) == old(self).refused(more),
    {
        if let Phase::Try { refused } = self.phase {
            self.phase = if refused + 1 < TRIES {
                Phase::Try { refused: refused + 1 }
            } else {
                Phase::Done
            };
            self.lambda = more;
        }
    }

    /// A step was worked out that leads to the given cost and largest residual.
    /// `less` is half the damping and `more` four times it. Returns whether to
    /// take the step.
    pub fn step(&mut self, cost: Scalar, worst: Scalar, less: Scalar, more: Scalar) -> (kept: bool)
        requires
            old(self).phase is Try,
            old(self).phase->refused < TRIES,
        ensures
            kept == cost.less(old(self).cost),
            *final(self) == old(self).stepped(cost, worst, less, more),
    {
        if cost < self.cost {
            self.cost = cost;
            self.worst = worst;
            self.lambda = less.max(Scalar::from_bits(0x3d71_9799_812d_ea11));
            self.go_on();
            true
        } else {
            self.singular(more);
            false
        }
    }

    /// How the solve went.
    pub fn report(&self) -> (r: SolveReport)
        ensures
            r == (SolveReport {
                converged: self.good(),
                iterations: self.iterations,
                residual_norm: self.worst,
            }),
    {
        SolveReport {
            converged: self.worst < self.options.tolerance || self.worst == self.options.tolerance,
            iterations: self.iterations,
            residual_norm: self.worst,
        }
    }

    /// How much is left to do at most.
    pub open spec fn left(self) -> (int, int) {
        (
            self.options.max_iterations - self.iterations,
            match self.phase {
                Phase::Linearise => TRIES + 1,
                Phase::Try { refused } => TRIES - refused,
                Phase::Done => 0int,
            },
        )
    }

    /// The rounds are counted, and refusals are short of the limit.
    pub open spec fn well_formed(self) -> bool {
        &&& self.iterations <= self.options.max_iterations
        &&& self.phase matches Phase::Try { refused } ==> refused < TRIES
    }
}

/// Less is left to do after every step, and the rounds stay within their limit:
/// every solve ends.
pub proof fn law_every_solve_ends(
    d: Descent,
    cost: Scalar,
    worst: Scalar,
    less: Scalar,
    more: Scalar,
)
    requires
        d.well_formed(),
    ensures
        d.phase == Phase::Linearise ==> ({
            let next = Descent { phase: Phase::Try { refused: 0 }, ..d };
            next.well_formed() && next.left().0 == d.left().0 && next.left().1 < d.left().1
        }),
        d.phase is Try ==> ({
            let next = d.stepped(cost, worst, less, more);
            &&& next.well_formed()
            &&& next.left().0 < d.left().0 || (next.left().0 == d.left().0 && next.left().1
                < d.left().1)
        }),
        d.phase is Try ==> ({
            let next = d.refused(more);
            next.well_formed() && next.left().0 == d.left().0 && next.left().1 < d.left().1
        }),
{
}

/// The cost never rises: it is lowered by every step that is taken, and stays
/// when one is refused.
pub proof fn law_the_cost_never_rises(
    d: Descent,
    cost: Scalar,
    worst: Scalar,
    less: Scalar,
    more: Scalar,
)
    requires
        d.phase is Try,
    ensures
        ({
            let next = d.stepped(cost, worst, less, more);
            next.cost == d.cost || next.cost.less(d.cost)
        }),
        d.refused(more).cost == d.cost,
        d.refused(more).worst == d.worst,
{
}

/// A solve is left only when the residuals are small enough, the rounds are used
/// up, or no damping gave a step that helps.
pub proof fn law_why_a_solve_stops(
    d: Descent,
    cost: Scalar,
    worst: Scalar,
    less: Scalar,
    more: Scalar,
)
    requires
        d.well_formed(),
        d.phase is Try,
        d.stepped(cost, worst, less, more).phase == Phase::Done,
    ensures
        ({
            let last = d.stepped(cost, worst, less, more);
            ||| last.good()
            ||| last.iterations == last.options.max_iterations
            ||| (d.phase == (Phase::Try { refused: (TRIES - 1) as u32 }) && !cost.less(d.cost))
        }),
{
}

/// The worst residual is the largest without its sign: none is larger, and it is one
/// of them, or zero where there are none.
pub proof fn law_the_worst_is_the_largest(residuals: Seq<Scalar>, k: int)
    ensures
        !worst_of(residuals).nan(),
        0 <= k < residuals.len() ==> !worst_of(residuals).less(magnitude_of(residuals[k])),
        worst_of(residuals).bits == 0 || exists|i: int|
            0 <= i < residuals.len() && worst_of(residuals) == magnitude_of(#[trigger] residuals[i]),
    decreases residuals.len(),
{
    if residuals.len() > 0 {
        let front = residuals.drop_last();
        let n = residuals.len() - 1;
        law_the_worst_is_the_largest(front, k);
        let before = worst_of(front);
        if worst_of(residuals) == magnitude_of(residuals[n]) {
        } else if before.bits != 0 {
            let i = choose|i: int|
                0 <= i < front.len() && before == magnitude_of(#[trigger] front[i]);
            assert(residuals[i] == front[i]);
        }
        if 0 <= k < n {
            assert(front[k] == residuals[k]);
        }
    }
}

/// The size of a number has no sign and is equal to the number or to its negative.
pub proof fn law_sizes_have_no_sign(v: Scalar)
    ensures
        magnitude_of(v) == v || magnitude_of(v) == v.flipped(),
        magnitude_of(v) == magnitude_of(v.flipped()),
        !magnitude_of(v).less(Scalar { bits: 0 }),
        !v.nan() ==> !magnitude_of(v).less(v),
{
}

/// A solve begins unless there is nothing to move, nothing to meet, or everything is
/// met already; it is worth going on exactly while the worst residual is above the
/// tolerance and there are rounds left.
pub proof fn law_when_a_solve_goes_on(
    options: SolveOptions,
    variables: usize,
    equations: usize,
    cost: Scalar,
    worst: Scalar,
)
    ensures
        ({
            let d = Descent::begun(options, variables, equations, cost, worst);
            let met = !worst.nan() && !options.tolerance.nan() && worst.rank()
                <= options.tolerance.rank();
            &&& d.good() == met
            &&& (d.phase == Phase::Linearise) == (variables > 0 && equations > 0 && !met
                && options.max_iterations > 0)
            &&& d.phase == Phase::Linearise || d.phase == Phase::Done
            &&& d.iterations == (if d.phase == Phase::Linearise {
                1nat
            } else {
                0
            })
            &&& d.cost == cost && d.worst == worst && d.lambda == options.initial_lambda
        }),
{
}

/// A step that lowers the cost is kept and the damping relaxed; any other is refused
/// and the damping raised, for the next try of the same round until there have been
/// too many.
pub proof fn law_good_steps_are_kept(
    d: Descent,
    cost: Scalar,
    worst: Scalar,
    less: Scalar,
    more: Scalar,
)
    requires
        d.phase is Try,
        d.phase->refused < TRIES,
        d.iterations <= d.options.max_iterations,
        !less.nan(),
    ensures
        ({
            let next = d.stepped(cost, worst, less, more);
            let floor = Scalar { bits: 0x3d71_9799_812d_ea11 };
            if !cost.nan() && !d.cost.nan() && cost.rank() < d.cost.rank() {
                &&& next.cost == cost && next.worst == worst
                &&& next.lambda == (if less.rank() < floor.rank() {
                    floor
                } else {
                    less
                })
                &&& !(next.phase is Try)
            } else {
                &&& next.cost == d.cost && next.worst == d.worst
                &&& next.lambda == more
                &&& next.iterations == d.iterations
                &&& next.phase matches Phase::Try { refused } ==> refused == d.phase->refused + 1
                &&& next.phase is Try == (d.phase->refused + 1 < TRIES)
            }
        }),
        crate::scalar_laws::is_nearest(
            Scalar { bits: 0x3d71_9799_812d_ea11 },
            1,
            1000000000000,
            92,
            0x1000_0000_0000_0000_0000_0000,
        ),
{
}

/// Each column with a pivot uses up a row and counts one more independent equation;
/// one without uses up the column alone.
pub proof fn law_pivots_are_counted(walk: RankWalk, found: bool)
    requires
        walk.well_formed(),
        !walk.over(),
    ensures
        walk.advanced(found).column == walk.column + 1,
        walk.advanced(found).rank == walk.rank + (if found {
            1int
        } else {
            0
        }),
        walk.advanced(found).row - walk.row == walk.advanced(found).rank - walk.rank,
        walk.advanced(found).rows == walk.rows && walk.advanced(found).columns == walk.columns,
        walk.over() == (walk.row == walk.rows || walk.column == walk.columns),
{
}

} // verus!
