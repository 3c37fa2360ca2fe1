//! The constraint sketch and its boundary.
//!
//! A [`Sketch2d`] is edited entity by entity. Its boundary is found by walking:
//! from a start point, along the first segment not yet used that touches the
//! current point, to that segment's other end, and so on until every segment has
//! been used. The walk that ends where it began is the closed profile.

use crate::scalar::Scalar;
use crate::sketch::{
    CircleId, Constraint, LineId, PointId, ProfileElem, SketchBezier, SketchCircle, SketchLine,
    SketchPoint,
};
use vstd::prelude::*;
use vstd::std_specs::cmp::PartialEqSpecImpl;

verus! {

/// Entities and the constraints relating them.
#[derive(Debug)]
pub struct Sketch2d {
    pub points: Vec<SketchPoint>,
    pub lines: Vec<SketchLine>,
    pub circles: Vec<SketchCircle>,
    pub constraints: Vec<Constraint>,
    /// Cubic boundary segments.
    pub beziers: Vec<SketchBezier>,
}

/// What a sketch holds.
#[verifier::ext_equal]
pub struct SketchModel {
    pub points: Seq<SketchPoint>,
    pub lines: Seq<SketchLine>,
    pub circles: Seq<SketchCircle>,
    pub constraints: Seq<Constraint>,
    pub beziers: Seq<SketchBezier>,
}

impl View for Sketch2d {
    type V = SketchModel;

    open spec fn view(&self) -> SketchModel {
        SketchModel {
            points: self.points@,
            lines: self.lines@,
            circles: self.circles@,
            constraints: self.constraints@,
            beziers: self.beziers@,
        }
    }
}

/// A boundary segment between two points: straight, or a cubic with its two
/// handles.
#[derive(Clone, Copy, Debug)]
pub struct Segment {
    pub a: PointId,
    pub b: PointId,
    pub handles: Option<([Scalar; 2], [Scalar; 2])>,
}

impl Segment {
    pub open spec fn touches(self, p: PointId) -> bool {
        self.a == p || self.b == p
    }

    /// The end reached by entering the segment at `p`.
    pub open spec fn across(self, p: PointId) -> PointId {
        if self.a == p {
            self.b
        } else {
            self.a
        }
    }
}

/// A walk along segments: the segments in the order they were used, and the
/// points met, the start first.
#[verifier::ext_equal]
pub struct Walk {
    pub path: Seq<int>,
    pub points: Seq<PointId>,
}

/// The first segment at or after `from` that is not in `used` and touches `at`.
pub open spec fn next_segment(segs: Seq<Segment>, used: Seq<int>, at: PointId, from: int) -> Option<
    int,
>
    decreases segs.len() - from,
{
    if from < 0 || from >= segs.len() {
        None
    } else if !used.contains(from) && segs[from].touches(at) {
        Some(from)
    } else {
        next_segment(segs, used, at, from + 1)
    }
}

/// The walk of `steps` segments from `start`, if it can be taken.
pub open spec fn walk(segs: Seq<Segment>, start: PointId, steps: nat) -> Option<Walk>
    decreases steps,
{
    if steps == 0 {
        Some(Walk { path: seq![], points: seq![start] })
    } else {
        match walk(segs, start, (steps - 1) as nat) {
            None => None,
            Some(w) => match next_segment(segs, w.path, w.points.last(), 0) {
                None => None,
                Some(i) => Some(
                    Walk { path: w.path.push(i), points: w.points.push(segs[i].across(w.points.last())) },
                ),
            },
        }
    }
}

/// The walk over every segment that returns to its start, the first segment's
/// first end. Fewer than three segments close no profile.
pub open spec fn closed_walk(segs: Seq<Segment>) -> Option<Walk> {
    if segs.len() < 3 {
        None
    } else {
        match walk(segs, segs[0].a, segs.len()) {
            Some(w) => if w.points.last() == segs[0].a {
                Some(w)
            } else {
                None
            },
            None => None,
        }
    }
}

/// How many segment ends lie at `p`.
pub open spec fn degree(segs: Seq<Segment>, p: PointId) -> nat
    decreases segs.len(),
{
    if segs.len() == 0 {
        0
    } else {
        degree(segs.drop_last(), p) + (if segs.last().a == p {
            1nat
        } else {
            0
        }) + (if segs.last().b == p {
            1nat
        } else {
            0
        })
    }
}

/// The first segment end, from segment `from` on, that no other segment end
/// shares: where an open chain begins.
pub open spec fn loose_end(segs: Seq<Segment>, from: int) -> Option<PointId>
    decreases segs.len() - from,
{
    if from < 0 || from >= segs.len() {
        None
    } else if degree(segs, segs[from].a) == 1 {
        Some(segs[from].a)
    } else if degree(segs, segs[from].b) == 1 {
        Some(segs[from].b)
    } else {
        loose_end(segs, from + 1)
    }
}

/// The walk over every segment that begins at a loose end.
pub open spec fn open_walk(segs: Seq<Segment>) -> Option<Walk> {
    match loose_end(segs, 0) {
        Some(p) => walk(segs, p, segs.len()),
        None => None,
    }
}

impl SketchModel {
    /// Entity by entity equality of numbers and references.
    pub open spec fn equals(self, other: SketchModel) -> bool {
        &&& self.points.len() == other.points.len()
        &&& self.lines == other.lines
        &&& self.circles.len() == other.circles.len()
        &&& self.constraints.len() == other.constraints.len()
        &&& self.beziers.len() == other.beziers.len()
        &&& forall|i: int|
            0 <= i < self.points.len() ==> (#[trigger] self.points[i]).equals(other.points[i])
        &&& forall|i: int|
            0 <= i < self.circles.len() ==> (#[trigger] self.circles[i]).equals(other.circles[i])
        &&& forall|i: int|
            0 <= i < self.constraints.len() ==> (#[trigger] self.constraints[i]).equals(
                other.constraints[i],
            )
        &&& forall|i: int|
            0 <= i < self.beziers.len() ==> (#[trigger] self.beziers[i]).equals(other.beziers[i])
    }

    /// The straight segments.
    pub open spec fn line_segments(self) -> Seq<Segment> {
        Seq::new(
            self.lines.len(),
            |i: int| Segment { a: self.lines[i].a, b: self.lines[i].b, handles: None },
        )
    }

    /// All segments: the lines, then the beziers.
    pub open spec fn segments(self) -> Seq<Segment> {
        self.line_segments() + Seq::new(
            self.beziers.len(),
            |i: int|
                Segment {
                    a: self.beziers[i].a,
                    b: self.beziers[i].b,
                    handles: Some((self.beziers[i].c1, self.beziers[i].c2)),
                },
        )
    }

    pub open spec fn has_point(self, p: PointId) -> bool {
        p.0 < self.points.len()
    }

    /// Where a point lies.
    pub open spec fn place(self, p: PointId) -> [Scalar; 2] {
        [self.points[p.0 as int].x, self.points[p.0 as int].y]
    }

    /// The boundary element for entering `seg` at `p`: a cubic entered at its
    /// far end has its handles swapped.
    pub open spec fn element(self, seg: Segment, p: PointId) -> ProfileElem {
        let a = self.place(p);
        let b = self.place(seg.across(p));
        match seg.handles {
            None => ProfileElem::Line { a, b },
            Some((c1, c2)) => if seg.a == p {
                ProfileElem::Bezier { a, c1, c2, b }
            } else {
                ProfileElem::Bezier { a, c1: c2, c2: c1, b }
            },
        }
    }

    /// The boundary elements along a walk.
    pub open spec fn elements(self, segs: Seq<Segment>, w: Walk) -> Seq<ProfileElem> {
        Seq::new(w.path.len(), |i: int| self.element(segs[w.path[i]], w.points[i]))
    }

    /// Every point of the walk is a point of the sketch.
    pub open spec fn knows(self, w: Walk) -> bool {
        forall|i: int| 0 <= i < w.points.len() ==> self.has_point(#[trigger] w.points[i])
    }

    /// The points a closed loop of straight segments meets are the sketch's own.
    pub open spec fn loop_known(self) -> bool {
        closed_walk(self.line_segments()) matches Some(w) ==> self.knows(w)
    }

    /// The points a closed boundary meets are the sketch's own.
    pub open spec fn boundary_known(self) -> bool {
        closed_walk(self.segments()) matches Some(w) ==> self.knows(w)
    }

    /// The points an open chain meets are the sketch's own.
    pub open spec fn path_known(self) -> bool {
        open_walk(self.segments()) matches Some(w) ==> self.knows(w)
    }

    /// Every segment ends at points of the sketch.
    pub open spec fn well_formed(self) -> bool {
        forall|i: int|
            0 <= i < self.segments().len() ==> self.has_point((#[trigger] self.segments()[i]).a)
                && self.has_point(self.segments()[i].b)
    }

    /// The closed loop of straight segments, as places.
    pub open spec fn profile_loop(self) -> Option<Seq<[Scalar; 2]>> {
        match closed_walk(self.line_segments()) {
            Some(w) => Some(Seq::new(self.lines.len(), |i: int| self.place(w.points[i]))),
            None => None,
        }
    }

    /// The closed boundary over lines and beziers.
    pub open spec fn profile_elements(self) -> Option<Seq<ProfileElem>> {
        match closed_walk(self.segments()) {
            Some(w) => Some(self.elements(self.segments(), w)),
            None => None,
        }
    }

    /// The open chain over lines and beziers.
    pub open spec fn path_elements(self) -> Option<Seq<ProfileElem>> {
        match open_walk(self.segments()) {
            Some(w) => Some(self.elements(self.segments(), w)),
            None => None,
        }
    }

    /// The points of the closed loop of straight segments, in order.
    pub open spec fn loop_order(self) -> Option<Seq<PointId>> {
        match closed_walk(self.line_segments()) {
            Some(w) => Some(w.points.drop_last()),
            None => None,
        }
    }
}

pub proof fn lemma_walk_shape(segs: Seq<Segment>, start: PointId, steps: nat)
    ensures
        walk(segs, start, steps) matches Some(w) ==> {
            &&& w.path.len() == steps
            &&& w.points.len() == steps + 1
            &&& w.points[0] == start
            &&& forall|k: int| 0 <= k < steps ==> 0 <= #[trigger] w.path[k] < segs.len()
            &&& forall|k: int| 0 <= k < steps ==> segs[#[trigger] w.path[k]].touches(w.points[k])
            &&& forall|k: int|
                0 <= k < steps ==> w.points[k + 1] == segs[#[trigger] w.path[k]].across(w.points[k])
            &&& w.path.no_duplicates()
        },
    decreases steps,
{
    if steps > 0 {
        lemma_walk_shape(segs, start, (steps - 1) as nat);
        match walk(segs, start, (steps - 1) as nat) {
            Some(w) => {
                lemma_next_segment(segs, w.path, w.points.last(), 0);
            },
            None => {},
        }
    }
}

pub proof fn lemma_next_segment(segs: Seq<Segment>, used: Seq<int>, at: PointId, from: int)
    requires
        from >= 0,
    ensures
        match next_segment(segs, used, at, from) {
            Some(i) => {
                &&& from <= i < segs.len()
                &&& !used.contains(i)
                &&& segs[i].touches(at)
                &&& forall|j: int|
                    from <= j < i ==> used.contains(j) || !(#[trigger] segs[j]).touches(at)
            },
            None => forall|j: int|
                from <= j < segs.len() ==> used.contains(j) || !(#[trigger] segs[j]).touches(at),
        },
    decreases segs.len() - from,
{
    if from < segs.len() && (used.contains(from) || !segs[from].touches(at)) {
        lemma_next_segment(segs, used, at, from + 1);
    }
}

/// A walk that cannot be taken cannot be taken further.
proof fn lemma_walk_stuck(segs: Seq<Segment>, start: PointId, few: nat, many: nat)
    requires
        few <= many,
        walk(segs, start, few) is None,
    ensures
        walk(segs, start, many) is None,
    decreases many,
{
    if few < many {
        lemma_walk_stuck(segs, start, few, (many - 1) as nat);
    }
}

/// Take the walk over all of `segs` from `start`: the points met, and the
/// segments used.
fn walk_all(segs: &Vec<Segment>, start: PointId) -> (r: Option<(Vec<PointId>, Vec<usize>)>)
    ensures
        match r {
            None => walk(segs@, start, segs@.len()) is None,
            Some((points, path)) => walk(segs@, start, segs@.len()) matches Some(w) && {
                &&& points@ == w.points
                &&& path@.len() == w.path.len()
                &&& forall|k: int| 0 <= k < path@.len() ==> #[trigger] path@[k] == w.path[k]
            },
        },
{
    let n: usize = segs.len();
    let mut used: Vec<bool> = Vec::new();
    let mut u: usize = 0;
    while u < n
        invariant
            u <= n,
            used@.len() == u,
            forall|k: int| 0 <= k < u ==> !(#[trigger] used@[k]),
        decreases n - u,
    {
        used.push(false);
        u += 1;
    }
    let mut points: Vec<PointId> = Vec::new();
    let mut path: Vec<usize> = Vec::new();
    points.push(start);
    let mut current = start;
    let mut step: usize = 0;
    proof {
        assert(points@ =~= seq![start]);
    }
    while step < n
        invariant
            n == segs@.len(),
            step <= n,
            used@.len() == n,
            walk(segs@, start, step as nat) matches Some(w) && {
                &&& points@ == w.points
                &&& path@.len() == w.path.len()
                &&& w.path.len() == step
                &&& w.points.len() == step + 1
                &&& forall|k: int| 0 <= k < path@.len() ==> #[trigger] path@[k] == w.path[k]
                &&& forall|k: int| 0 <= k < n ==> #[trigger] used@[k] == w.path.contains(k)
            },
            current == points@.last(),
        decreases n - step,
    {
        let ghost w = walk(segs@, start, step as nat)->Some_0;
        let mut i: usize = 0;
        while i < n && (used[i] || !(segs[i].a == current || segs[i].b == current))
            invariant
                i <= n,
                n == segs@.len(),
                used@.len() == n,
                forall|k: int| 0 <= k < n ==> #[trigger] used@[k] == w.path.contains(k),
                next_segment(segs@, w.path, current, 0) == next_segment(
                    segs@,
                    w.path,
                    current,
                    i as int,
                ),
            decreases n - i,
        {
            i += 1;
        }
        proof {
            reveal_with_fuel(walk, 2);
        }
        if i == n {
            proof {
                lemma_walk_stuck(segs@, start, (step + 1) as nat, n as nat);
            }
            return None;
        }
        let next = if segs[i].a == current {
            segs[i].b
        } else {
            segs[i].a
        };
        proof {
            let after = w.path.push(i as int);
            assert forall|k: int| 0 <= k < n implies after.contains(k) == (w.path.contains(k) || k
                == i) by {
                if w.path.contains(k) {
                    let j = w.path.index_of(k);
                    assert(after[j] == k);
                }
                assert(after[w.path.len() as int] == i);
                if after.contains(k) && k != i {
                    let j = after.index_of(k);
                    assert(w.path[j] == k);
                }
            }
        }
        used.set(i, true);
        path.push(i);
        points.push(next);
        current = next;
        step += 1;
    }
    Some((points, path))
}

impl Default for Sketch2d {
    fn default() -> (r: Sketch2d)
        ensures
            r@ == empty_sketch(),
    {
        Sketch2d {
            points: Vec::new(),
            lines: Vec::new(),
            circles: Vec::new(),
            constraints: Vec::new(),
            beziers: Vec::new(),
        }
    }
}

/// The sketch with nothing in it.
pub open spec fn empty_sketch() -> SketchModel {
    SketchModel {
        points: seq![],
        lines: seq![],
        circles: seq![],
        constraints: seq![],
        beziers: seq![],
    }
}

impl Clone for Sketch2d {
    fn clone(&self) -> (r: Sketch2d)
        ensures
            r@ == self@,
    {
        Sketch2d {
            points: copied(&self.points),
            lines: copied(&self.lines),
            circles: copied(&self.circles),
            constraints: copied(&self.constraints),
            beziers: copied(&self.beziers),
        }
    }
}

/// A vector with the same elements.
pub(crate) fn copied<T: Copy>(items: &Vec<T>) -> (r: Vec<T>)
    ensures
        r@ == items@,
{
    let mut out: Vec<T> = Vec::with_capacity(items.len());
    let mut i: usize = 0;
    while i < items.len()
        invariant
            i <= items@.len(),
            out@ == items@.take(i as int),
        decreases items@.len() - i,
    {
        out.push(items[i]);
        i += 1;
        proof {
            assert(items@.take(i as int) =~= items@.take(i - 1).push(items@[i - 1]));
        }
    }
    proof {
        assert(items@.take(i as int) =~= items@);
    }
    out
}

impl PartialEq for Sketch2d {
    fn eq(&self, other: &Sketch2d) -> (r: bool) {
        let (points, lines, circles): (usize, usize, usize) = (
            self.points.len(),
            self.lines.len(),
            self.circles.len(),
        );
        let (constraints, beziers): (usize, usize) = (self.constraints.len(), self.beziers.len());
        if points != other.points.len() || lines != other.lines.len() || circles
            != other.circles.len() || constraints != other.constraints.len() || beziers
            != other.beziers.len() {
            return false;
        }
        let mut i: usize = 0;
        while i < points
            invariant
                i <= points == self.points@.len(),
                points == other.points@.len(),
                forall|j: int|
                    0 <= j < i ==> (#[trigger] self@.points[j]).equals(other@.points[j]),
            decreases points - i,
        {
            if self.points[i] != other.points[i] {
                assert(!self@.points[i as int].equals(other@.points[i as int]));
                return false;
            }
            i += 1;
        }
        let mut i: usize = 0;
        while i < lines
            invariant
                i <= lines == self.lines@.len(),
                lines == other.lines@.len(),
                forall|j: int| 0 <= j < i ==> (#[trigger] self@.lines[j]) == other@.lines[j],
            decreases lines - i,
        {
            if self.lines[i] != other.lines[i] {
                assert(self@.lines[i as int] != other@.lines[i as int]);
                return false;
            }
            i += 1;
        }
        assert(self@.lines =~= other@.lines);
        let mut i: usize = 0;
        while i < circles
            invariant
                i <= circles == self.circles@.len(),
                circles == other.circles@.len(),
                forall|j: int|
                    0 <= j < i ==> (#[trigger] self@.circles[j]).equals(other@.circles[j]),
            decreases circles - i,
        {
            if self.circles[i] != other.circles[i] {
                assert(!self@.circles[i as int].equals(other@.circles[i as int]));
                return false;
            }
            i += 1;
        }
        let mut i: usize = 0;
        while i < constraints
            invariant
                i <= constraints == self.constraints@.len(),
                constraints == other.constraints@.len(),
                forall|j: int|
                    0 <= j < i ==> (#[trigger] self@.constraints[j]).equals(other@.constraints[j]),
            decreases constraints - i,
        {
            if self.constraints[i] != other.constraints[i] {
                assert(!self@.constraints[i as int].equals(other@.constraints[i as int]));
                return false;
            }
            i += 1;
        }
        let mut i: usize = 0;
        while i < beziers
            invariant
                i <= beziers == self.beziers@.len(),
                beziers == other.beziers@.len(),
                forall|j: int|
                    0 <= j < i ==> (#[trigger] self@.beziers[j]).equals(other@.beziers[j]),
            decreases beziers - i,
        {
            if self.beziers[i] != other.beziers[i] {
                assert(!self@.beziers[i as int].equals(other@.beziers[i as int]));
                return false;
            }
            i += 1;
        }
        true
    }
}

impl PartialEqSpecImpl for Sketch2d {
    open spec fn obeys_eq_spec() -> bool {
        true
    }

    open spec fn eq_spec(&self, other: &Sketch2d) -> bool {
        self@.equals(other@)
    }
}

impl Sketch2d {
    /// An empty sketch.
    pub fn new() -> (r: Sketch2d)
        ensures
            r@ == empty_sketch(),
    {
        Sketch2d::default()
    }

    /// Add a point, returning its id.
    pub fn add_point(&mut self, x: Scalar, y: Scalar) -> (id: PointId)
        ensures
            id.0 == old(self)@.points.len(),
            final(self)@ == (SketchModel {
                points: old(self)@.points.push(SketchPoint { x, y }),
                ..old(self)@
            }),
    {
        self.points.push(SketchPoint { x, y });
        PointId(self.points.len() - 1)
    }

    /// Add a line between two points, returning its id.
    pub fn add_line(&mut self, a: PointId, b: PointId) -> (id: LineId)
        ensures
            id.0 == old(self)@.lines.len(),
            final(self)@ == (SketchModel {
                lines: old(self)@.lines.push(SketchLine { a, b }),
                ..old(self)@
            }),
    {
        self.lines.push(SketchLine { a, b });
        LineId(self.lines.len() - 1)
    }

    /// Add a circle, returning its id.
    pub fn add_circle(&mut self, center: PointId, radius: Scalar) -> (id: CircleId)
        ensures
            id.0 == old(self)@.circles.len(),
            final(self)@ == (SketchModel {
                circles: old(self)@.circles.push(SketchCircle { center, radius }),
                ..old(self)@
            }),
    {
        self.circles.push(SketchCircle { center, radius });
        CircleId(self.circles.len() - 1)
    }

    /// Add a cubic between two points, with its control handles.
    pub fn add_bezier(&mut self, a: PointId, b: PointId, c1: [Scalar; 2], c2: [Scalar; 2])
        ensures
            final(self)@ == (SketchModel {
                beziers: old(self)@.beziers.push(SketchBezier { a, b, c1, c2 }),
                ..old(self)@
            }),
    {
        self.beziers.push(SketchBezier { a, b, c1, c2 });
    }

    /// Add a constraint.
    pub fn add_constraint(&mut self, constraint: Constraint)
        ensures
            final(self)@ == (SketchModel {
                constraints: old(self)@.constraints.push(constraint),
                ..old(self)@
            }),
    {
        self.constraints.push(constraint);
    }

    /// The point with the given id.
    pub fn point(&self, id: PointId) -> (r: SketchPoint)
        requires
            id.0 < self@.points.len(),
        ensures
            r == self@.points[id.0 as int],
    {
        self.points[id.0]
    }

    /// The line with the given id.
    pub fn line(&self, id: LineId) -> (r: SketchLine)
        requires
            id.0 < self@.lines.len(),
        ensures
            r == self@.lines[id.0 as int],
    {
        self.lines[id.0]
    }

    /// The circle with the given id.
    pub fn circle(&self, id: CircleId) -> (r: SketchCircle)
        requires
            id.0 < self@.circles.len(),
        ensures
            r == self@.circles[id.0 as int],
    {
        self.circles[id.0]
    }

    /// Where a line's two ends lie, if the line and its ends exist. Handles for
    /// [`Sketch2d::curve_line`] are placed between them.
    pub fn line_ends(&self, line: LineId) -> (r: Option<(SketchPoint, SketchPoint)>)
        ensures
            r == (if line.0 < self@.lines.len() && self@.has_point(self@.lines[line.0 as int].a)
                && self@.has_point(self@.lines[line.0 as int].b) {
                Some(
                    (
                        self@.points[self@.lines[line.0 as int].a.0 as int],
                        self@.points[self@.lines[line.0 as int].b.0 as int],
                    ),
                )
            } else {
                None
            }),
    {
        if line.0 < self.lines.len() {
            let l = self.lines[line.0];
            if l.a.0 < self.points.len() && l.b.0 < self.points.len() {
                return Some((self.points[l.a.0], self.points[l.b.0]));
            }
        }
        None
    }

    /// Turn a straight line into a cubic with the handles `c1` and `c2`. Returns
    /// false, changing nothing, if there is no such line.
    pub fn curve_line(&mut self, line: LineId, c1: [Scalar; 2], c2: [Scalar; 2]) -> (r: bool)
        ensures
            r == (line.0 < old(self)@.lines.len()),
            !r ==> final(self)@ == old(self)@,
            r ==> final(self)@ == old(self)@.curved(line, c1, c2),
    {
        if line.0 >= self.lines.len() {
            return false;
        }
        let l = self.lines.remove(line.0);
        self.add_bezier(l.a, l.b, c1, c2);
        true
    }

    /// The point at one end of a cubic, where it lies, and the handle there:
    /// what a mirrored handle is computed from.
    pub fn handle_node(&self, bez: usize, is_c1: bool) -> (r: Option<
        (PointId, SketchPoint, [Scalar; 2]),
    >)
        requires
            bez < self@.beziers.len() ==> self@.has_point(
                if is_c1 {
                    self@.beziers[bez as int].a
                } else {
                    self@.beziers[bez as int].b
                },
            ),
        ensures
            r == (if bez < self@.beziers.len() {
                let b = self@.beziers[bez as int];
                let node = if is_c1 {
                    b.a
                } else {
                    b.b
                };
                Some(
                    (
                        node,
                        self@.points[node.0 as int],
                        if is_c1 {
                            b.c1
                        } else {
                            b.c2
                        },
                    ),
                )
            } else {
                None
            }),
    {
        if bez >= self.beziers.len() {
            return None;
        }
        let b = self.beziers[bez];
        let (node, handle) = if is_c1 {
            (b.a, b.c1)
        } else {
            (b.b, b.c2)
        };
        Some((node, self.points[node.0], handle))
    }

    /// Keep a shared node smooth after one end's handle of cubic `bez` moved:
    /// every other cubic meeting the node has its handle there set to
    /// `mirrored`, the moved handle's reflection through the node.
    pub fn mirror_partner_handle(&mut self, bez: usize, is_c1: bool, mirrored: [Scalar; 2])
        ensures
            final(self)@ == (if bez < old(self)@.beziers.len() {
                let node = if is_c1 {
                    old(self)@.beziers[bez as int].a
                } else {
                    old(self)@.beziers[bez as int].b
                };
                SketchModel {
                    beziers: Seq::new(
                        old(self)@.beziers.len(),
                        |i: int|
                            if i == bez {
                                old(self)@.beziers[i]
                            } else {
                                aligned(old(self)@.beziers[i], node, mirrored)
                            },
                    ),
                    ..old(self)@
                }
            } else {
                old(self)@
            }),
    {
        if bez >= self.beziers.len() {
            return;
        }
        let b = self.beziers[bez];
        let node = if is_c1 {
            b.a
        } else {
            b.b
        };
        let ghost before = self@;
        let n: usize = self.beziers.len();
        let mut i: usize = 0;
        while i < n
            invariant
                i <= n == before.beziers.len(),
                self.beziers@.len() == n,
                self@ == (SketchModel { beziers: self.beziers@, ..before }),
                forall|j: int|
                    0 <= j < n ==> #[trigger] self.beziers@[j] == (if j < i && j != bez {
                        aligned(before.beziers[j], node, mirrored)
                    } else {
                        before.beziers[j]
                    }),
            decreases n - i,
        {
            if i != bez {
                let mut other = self.beziers[i];
                if other.a == node {
                    other.c1 = mirrored;
                } else if other.b == node {
                    other.c2 = mirrored;
                }
                self.beziers.set(i, other);
            }
            i += 1;
        }
    }

    fn line_segments(&self) -> (segs: Vec<Segment>)
        ensures
            segs@ == self@.line_segments(),
    {
        let mut segs: Vec<Segment> = Vec::new();
        let mut i: usize = 0;
        while i < self.lines.len()
            invariant
                i <= self@.lines.len(),
                segs@ == self@.line_segments().take(i as int),
            decreases self@.lines.len() - i,
        {
            let l = self.lines[i];
            segs.push(Segment { a: l.a, b: l.b, handles: None });
            i += 1;
        }
        segs
    }

    fn segments(&self) -> (segs: Vec<Segment>)
        ensures
            segs@ == self@.segments(),
    {
        let mut segs = self.line_segments();
        let mut i: usize = 0;
        while i < self.beziers.len()
            invariant
                i <= self@.beziers.len(),
                segs@ == self@.segments().take(self@.lines.len() + i),
            decreases self@.beziers.len() - i,
        {
            let b = self.beziers[i];
            segs.push(Segment { a: b.a, b: b.b, handles: Some((b.c1, b.c2)) });
            i += 1;
        }
        segs
    }

    /// The elements along a walk over `segs`.
    fn elements(&self, segs: &Vec<Segment>, points: &Vec<PointId>, path: &Vec<usize>) -> (r: Vec<
        ProfileElem,
    >)
        requires
            points@.len() == path@.len() + 1,
            forall|k: int| 0 <= k < points@.len() ==> self@.has_point(#[trigger] points@[k]),
            forall|k: int| 0 <= k < path@.len() ==> (#[trigger] path@[k]) < segs@.len(),
            forall|k: int|
                0 <= k < path@.len() ==> points@[k + 1] == segs@[(#[trigger] path@[k]) as int].across(
                    points@[k],
                ),
        ensures
            r@ == Seq::new(
                path@.len(),
                |k: int| self@.element(segs@[path@[k] as int], points@[k]),
            ),
    {
        let mut elems: Vec<ProfileElem> = Vec::new();
        let mut k: usize = 0;
        while k < path.len()
            invariant
                k <= path@.len(),
                points@.len() == path@.len() + 1,
                elems@.len() == k,
                forall|k: int| 0 <= k < points@.len() ==> self@.has_point(#[trigger] points@[k]),
                forall|k: int| 0 <= k < path@.len() ==> (#[trigger] path@[k]) < segs@.len(),
                forall|k: int|
                    0 <= k < path@.len() ==> points@[k + 1] == segs@[(
                    #[trigger] path@[k]) as int].across(points@[k]),
                forall|j: int|
                    0 <= j < k ==> #[trigger] elems@[j] == self@.element(
                        segs@[path@[j] as int],
                        points@[j],
                    ),
            decreases path@.len() - k,
        {
            let seg = segs[path[k]];
            let (p, q) = (points[k], points[k + 1]);
            assert(points@[k + 1] == segs@[path@[k as int] as int].across(points@[k as int]));
            let a = [self.points[p.0].x, self.points[p.0].y];
            let b = [self.points[q.0].x, self.points[q.0].y];
            assert(a =~= self@.place(p));
            assert(b =~= self@.place(q));
            match seg.handles {
                None => elems.push(ProfileElem::Line { a, b }),
                Some((c1, c2)) => {
                    if seg.a == p {
                        elems.push(ProfileElem::Bezier { a, c1, c2, b });
                    } else {
                        elems.push(ProfileElem::Bezier { a, c1: c2, c2: c1, b });
                    }
                },
            }
            k += 1;
        }
        elems
    }

    /// Whether every listed point is one of the sketch.
    fn knows_all(&self, points: &Vec<PointId>) -> (r: bool)
        ensures
            r == forall|k: int| 0 <= k < points@.len() ==> self@.has_point(#[trigger] points@[k]),
    {
        let mut i: usize = 0;
        while i < points.len()
            invariant
                i <= points@.len(),
                forall|k: int| 0 <= k < i ==> self@.has_point(#[trigger] points@[k]),
            decreases points@.len() - i,
        {
            if points[i].0 >= self.points.len() {
                assert(!self@.has_point(points@[i as int]));
                return false;
            }
            i += 1;
        }
        true
    }

    /// Whether a closed walk over `segs`, if there is one, meets only points of the
    /// sketch.
    fn knows_closed_walk(&self, segs: &Vec<Segment>) -> (r: bool)
        ensures
            r == (closed_walk(segs@) matches Some(w) ==> self@.knows(w)),
    {
        if segs.len() < 3 {
            return true;
        }
        let start = segs[0].a;
        proof {
            lemma_walk_shape(segs@, start, segs@.len());
        }
        match walk_all(segs, start) {
            None => true,
            Some((points, _path)) => points[segs.len()] != start || self.knows_all(&points),
        }
    }

    /// Whether the closed loop of straight segments, if there is one, meets only
    /// points of the sketch, as it does in any sketch drawn through these methods;
    /// in one read from a file it may not.
    pub fn is_loop_known(&self) -> (r: bool)
        ensures
            r == self@.loop_known(),
    {
        self.knows_closed_walk(&self.line_segments())
    }

    /// Whether the closed boundary, if there is one, meets only points of the
    /// sketch.
    pub fn is_boundary_known(&self) -> (r: bool)
        ensures
            r == self@.boundary_known(),
    {
        self.knows_closed_walk(&self.segments())
    }

    /// Whether the open chain, if there is one, meets only points of the sketch.
    pub fn is_path_known(&self) -> (r: bool)
        ensures
            r == self@.path_known(),
    {
        let segs = self.segments();
        match find_loose_end(&segs) {
            None => true,
            Some(start) => match walk_all(&segs, start) {
                None => true,
                Some((points, _path)) => self.knows_all(&points),
            },
        }
    }

    /// The straight segments as one closed loop of places, ready to become a
    /// face; nothing unless they form a single closed loop, each visited once.
    pub fn profile_loop(&self) -> (r: Option<Vec<[Scalar; 2]>>)
        requires
            self@.loop_known(),
        ensures
            r matches Some(v) ==> self@.profile_loop() == Some(v@),
            r is None ==> self@.profile_loop() is None,
    {
        let segs = self.line_segments();
        if segs.len() < 3 {
            return None;
        }
        let start = segs[0].a;
        proof {
            lemma_walk_shape(segs@, start, segs@.len());
        }
        let (points, path) = match walk_all(&segs, start) {
            None => return None,
            Some(w) => w,
        };
        let n: usize = segs.len();
        if points[n] != start {
            return None;
        }
        let ghost w = closed_walk(segs@)->Some_0;
        let mut out: Vec<[Scalar; 2]> = Vec::new();
        let mut i: usize = 0;
        while i < n
            invariant
                i <= n < points@.len(),
                out@.len() == i,
                points@ == w.points,
                self@.knows(w),
                forall|j: int| 0 <= j < i ==> #[trigger] out@[j] == self@.place(points@[j]),
            decreases n - i,
        {
            let p = points[i];
            assert(self@.has_point(w.points[i as int]));
            let place = [self.points[p.0].x, self.points[p.0].y];
            assert(place =~= self@.place(p));
            out.push(place);
            i += 1;
        }
        proof {
            assert(out@ =~= self@.profile_loop()->Some_0);
        }
        Some(out)
    }

    /// The closed boundary as ordered segments, straight or cubic; nothing
    /// unless lines and beziers together form a single closed loop.
    pub fn profile_elements(&self) -> (r: Option<Vec<ProfileElem>>)
        requires
            self@.boundary_known(),
        ensures
            r matches Some(v) ==> self@.profile_elements() == Some(v@),
            r is None ==> self@.profile_elements() is None,
    {
        let segs = self.segments();
        if segs.len() < 3 {
            return None;
        }
        let start = segs[0].a;
        proof {
            lemma_walk_shape(segs@, start, segs@.len());
        }
        let (points, path) = match walk_all(&segs, start) {
            None => return None,
            Some(w) => w,
        };
        if points[segs.len()] != start {
            return None;
        }
        let ghost w = closed_walk(segs@)->Some_0;
        proof {
            assert(self@.knows(w));
            lemma_walk_steps(segs@, w, points@, path@);
        }
        let out = self.elements(&segs, &points, &path);
        proof {
            assert(out@ =~= self@.elements(segs@, w));
        }
        Some(out)
    }

    /// The open chain the segments form, from its first loose end; nothing
    /// unless a single chain uses them all.
    pub fn path_elements(&self) -> (r: Option<Vec<ProfileElem>>)
        requires
            self@.path_known(),
        ensures
            r matches Some(v) ==> self@.path_elements() == Some(v@),
            r is None ==> self@.path_elements() is None,
    {
        let segs = self.segments();
        let start = match find_loose_end(&segs) {
            None => return None,
            Some(p) => p,
        };
        proof {
            lemma_walk_shape(segs@, start, segs@.len());
        }
        let (points, path) = match walk_all(&segs, start) {
            None => return None,
            Some(w) => w,
        };
        let ghost w = open_walk(segs@)->Some_0;
        proof {
            assert(self@.knows(w));
            lemma_walk_steps(segs@, w, points@, path@);
        }
        let out = self.elements(&segs, &points, &path);
        proof {
            assert(out@ =~= self@.elements(segs@, w));
        }
        Some(out)
    }

    /// The points of the single closed loop of straight segments, in walking
    /// order: what editing the loop works on.
    pub fn loop_order(&self) -> (r: Option<Vec<PointId>>)
        ensures
            r matches Some(v) ==> self@.loop_order() == Some(v@),
            r is None ==> self@.loop_order() is None,
    {
        let segs = self.line_segments();
        if segs.len() < 3 {
            return None;
        }
        let start = segs[0].a;
        proof {
            lemma_walk_shape(segs@, start, segs@.len());
        }
        let (points, _path) = match walk_all(&segs, start) {
            None => return None,
            Some(w) => w,
        };
        let mut points = points;
        if points[segs.len()] != start {
            return None;
        }
        points.pop();
        proof {
            assert(points@ =~= self@.loop_order()->Some_0);
        }
        Some(points)
    }

    /// Insert a point along `line`, splitting it in two. The split line keeps
    /// its id as the first half and the second half is appended, so every id in
    /// use stays valid. Returns the new point.
    pub fn split_line(&mut self, line: LineId, x: Scalar, y: Scalar) -> (r: Option<PointId>)
        ensures
            r == (if line.0 < old(self)@.lines.len() {
                Some(PointId(old(self)@.points.len() as usize))
            } else {
                None
            }),
            final(self)@ == (if line.0 < old(self)@.lines.len() {
                old(self)@.split(line, SketchPoint { x, y })
            } else {
                old(self)@
            }),
    {
        if line.0 >= self.lines.len() {
            return None;
        }
        let l = self.lines[line.0];
        let p = self.add_point(x, y);
        self.lines.set(line.0, SketchLine { a: l.a, b: p });
        self.lines.push(SketchLine { a: p, b: l.b });
        Some(p)
    }

    /// Delete points from the closed loop and join up the rest. Needs a single
    /// closed loop, something to remove, and at least three points left;
    /// otherwise returns false and changes nothing. Circles and constraints are
    /// dropped, since the points they speak of are renumbered.
    pub fn delete_points(&mut self, remove: &[PointId]) -> (r: bool)
        requires
            old(self)@.loop_known(),
        ensures
            r == old(self)@.can_delete(remove@),
            final(self)@ == (if r {
                old(self)@.without_points(remove@)
            } else {
                old(self)@
            }),
    {
        let order = match self.loop_order() {
            None => return false,
            Some(order) => order,
        };
        proof {
            let segs = self@.line_segments();
            lemma_walk_shape(segs, segs[0].a, segs.len());
            let w = closed_walk(segs)->Some_0;
            assert forall|k: int| 0 <= k < order@.len() implies self@.has_point(
                #[trigger] order@[k],
            ) by {
                assert(self@.has_point(w.points[k]));
            }
        }
        let mut kept: Vec<SketchPoint> = Vec::new();
        let mut i: usize = 0;
        while i < order.len()
            invariant
                i <= order@.len(),
                forall|k: int| 0 <= k < order@.len() ==> self@.has_point(#[trigger] order@[k]),
                kept@ == survivors(order@.take(i as int), remove@).map_values(
                    |p: PointId| self@.points[p.0 as int],
                ),
            decreases order@.len() - i,
        {
            let id = order[i];
            proof {
                reveal(Seq::filter);
                assert(order@.take(i + 1).drop_last() =~= order@.take(i as int));
            }
            if !listed(remove, id) {
                kept.push(self.points[id.0]);
            }
            i += 1;
            proof {
                assert(kept@ =~= survivors(order@.take(i as int), remove@).map_values(
                    |p: PointId| self@.points[p.0 as int],
                ));
            }
        }
        proof {
            assert(order@.take(i as int) =~= order@);
        }
        if kept.len() < 3 || kept.len() == order.len() {
            return false;
        }
        let n: usize = kept.len();
        let mut ring: Vec<SketchLine> = Vec::new();
        let mut j: usize = 0;
        while j < n
            invariant
                j <= n,
                ring@.len() == j,
                forall|k: int| 0 <= k < j ==> #[trigger] ring@[k] == ring_line(k, n as int),
            decreases n - j,
        {
            let next: usize = if j + 1 == n {
                0
            } else {
                j + 1
            };
            ring.push(SketchLine { a: PointId(j), b: PointId(next) });
            j += 1;
        }
        self.points = kept;
        self.lines = ring;
        self.circles.clear();
        self.constraints.clear();
        proof {
            assert(self@ =~= old(self)@.without_points(remove@));
        }
        true
    }
}

/// A cubic with its handle at `node` moved to `place`. A cubic that begins at
/// the node has its first handle moved, whatever it ends at.
pub open spec fn aligned(b: SketchBezier, node: PointId, place: [Scalar; 2]) -> SketchBezier {
    if b.a == node {
        SketchBezier { c1: place, ..b }
    } else if b.b == node {
        SketchBezier { c2: place, ..b }
    } else {
        b
    }
}

/// The points of `order` that are not listed in `remove`.
pub open spec fn survivors(order: Seq<PointId>, remove: Seq<PointId>) -> Seq<PointId> {
    order.filter(|p: PointId| !remove.contains(p))
}

/// Line `k` of the ring over `n` points.
pub open spec fn ring_line(k: int, n: int) -> SketchLine {
    SketchLine {
        a: PointId(k as usize),
        b: PointId(
            (if k + 1 == n {
                0int
            } else {
                k + 1
            }) as usize,
        ),
    }
}

impl SketchModel {
    /// The sketch after `line` was split at a new point. The line keeps its id as
    /// the first half and the second half comes last.
    pub open spec fn split(self, line: LineId, at: SketchPoint) -> SketchModel {
        let l = self.lines[line.0 as int];
        let p = PointId(self.points.len() as usize);
        SketchModel {
            points: self.points.push(at),
            lines: self.lines.update(line.0 as int, SketchLine { a: l.a, b: p }).push(
                SketchLine { a: p, b: l.b },
            ),
            ..self
        }
    }

    /// The sketch after `line` became a cubic.
    pub open spec fn curved(self, line: LineId, c1: [Scalar; 2], c2: [Scalar; 2]) -> SketchModel {
        let l = self.lines[line.0 as int];
        SketchModel {
            lines: self.lines.remove(line.0 as int),
            beziers: self.beziers.push(SketchBezier { a: l.a, b: l.b, c1, c2 }),
            ..self
        }
    }

    /// Whether deleting `remove` leaves a smaller closed loop.
    pub open spec fn can_delete(self, remove: Seq<PointId>) -> bool {
        match self.loop_order() {
            None => false,
            Some(order) => 3 <= survivors(order, remove).len() < order.len(),
        }
    }

    /// The sketch whose points are the survivors, in loop order, joined in a
    /// ring.
    pub open spec fn without_points(self, remove: Seq<PointId>) -> SketchModel {
        let kept = survivors(self.loop_order()->Some_0, remove);
        SketchModel {
            points: kept.map_values(|p: PointId| self.points[p.0 as int]),
            lines: Seq::new(kept.len(), |k: int| ring_line(k, kept.len() as int)),
            circles: seq![],
            constraints: seq![],
            beziers: self.beziers,
        }
    }
}

fn listed(ids: &[PointId], id: PointId) -> (r: bool)
    ensures
        r == ids@.contains(id),
{
    let mut i: usize = 0;
    while i < ids.len()
        invariant
            i <= ids@.len(),
            forall|k: int| 0 <= k < i ==> #[trigger] ids@[k] != id,
        decreases ids@.len() - i,
    {
        if ids[i] == id {
            assert(ids@[i as int] == id);
            return true;
        }
        i += 1;
    }
    false
}

fn find_loose_end(segs: &Vec<Segment>) -> (r: Option<PointId>)
    ensures
        r == loose_end(segs@, 0),
{
    let mut i: usize = 0;
    while i < segs.len()
        invariant
            i <= segs@.len(),
            loose_end(segs@, 0) == loose_end(segs@, i as int),
        decreases segs@.len() - i,
    {
        if lone_end(segs, segs[i].a) {
            return Some(segs[i].a);
        }
        if lone_end(segs, segs[i].b) {
            return Some(segs[i].b);
        }
        i += 1;
    }
    None
}

/// Whether exactly one segment end lies at `p`.
fn lone_end(segs: &Vec<Segment>, p: PointId) -> (r: bool)
    ensures
        r == (degree(segs@, p) == 1),
{
    let mut seen: bool = false;
    let mut i: usize = 0;
    while i < segs.len()
        invariant
            i <= segs@.len(),
            seen == (degree(segs@.take(i as int), p) == 1),
            degree(segs@.take(i as int), p) <= 1,
        decreases segs@.len() - i,
    {
        proof {
            assert(segs@.take(i + 1).drop_last() =~= segs@.take(i as int));
            lemma_degree_grows(segs@, i + 1, p);
        }
        if segs[i].a == p {
            if seen {
                return false;
            }
            seen = true;
        }
        if segs[i].b == p {
            if seen {
                return false;
            }
            seen = true;
        }
        i += 1;
    }
    proof {
        assert(segs@.take(i as int) =~= segs@);
    }
    seen
}

proof fn lemma_degree_grows(segs: Seq<Segment>, k: int, p: PointId)
    requires
        0 <= k <= segs.len(),
    ensures
        degree(segs.take(k), p) <= degree(segs, p),
    decreases segs.len(),
{
    if k < segs.len() {
        assert(segs.drop_last().take(k) =~= segs.take(k));
        lemma_degree_grows(segs.drop_last(), k, p);
    } else {
        assert(segs.take(k) =~= segs);
    }
}

/// The steps of a walk, over its executable form.
proof fn lemma_walk_steps(segs: Seq<Segment>, w: Walk, points: Seq<PointId>, path: Seq<usize>)
    requires
        points == w.points,
        path.len() == w.path.len(),
        forall|k: int| 0 <= k < path.len() ==> #[trigger] path[k] == w.path[k],
        w.points.len() == w.path.len() + 1,
        forall|k: int| 0 <= k < w.path.len() ==> 0 <= #[trigger] w.path[k] < segs.len(),
        forall|k: int|
            0 <= k < w.path.len() ==> w.points[k + 1] == segs[#[trigger] w.path[k]].across(
                w.points[k],
            ),
    ensures
        forall|k: int| 0 <= k < path.len() ==> (#[trigger] path[k]) < segs.len(),
        forall|k: int|
            0 <= k < path.len() ==> points[k + 1] == segs[(#[trigger] path[k]) as int].across(
                points[k],
            ),
{
    assert forall|k: int| 0 <= k < path.len() implies (#[trigger] path[k]) < segs.len()
        && points[k + 1] == segs[path[k] as int].across(points[k]) by {
        assert(path[k] == w.path[k]);
    }
}

} // verus!
