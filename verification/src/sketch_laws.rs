//! What holds of a sketch's boundary.

use crate::scalar::Scalar;
use crate::sketch::{LineId, PointId, ProfileElem, SketchBezier, SketchPoint};
use crate::sketch2d::{Segment, SketchModel, Walk};
use vstd::prelude::*;

verus! {

/// In a sketch whose segments end at its own points, every walk meets only
/// those points.
pub proof fn law_well_formed_sketches_know_their_walks(s: SketchModel)
    requires
        s.well_formed(),
    ensures
        s.loop_known(),
        s.boundary_known(),
        s.path_known(),
{
    let lines = s.line_segments();
    let segs = s.segments();
    assert forall|i: int| 0 <= i < lines.len() implies s.has_point((#[trigger] lines[i]).a)
        && s.has_point(lines[i].b) by {
        assert(lines[i] == segs[i]);
    }
    if lines.len() >= 3 {
        lemma_walk_stays_inside(s, lines, lines[0].a, lines.len());
    }
    if segs.len() >= 3 {
        lemma_walk_stays_inside(s, segs, segs[0].a, segs.len());
    }
    lemma_loose_end_inside(s, segs, 0);
    match crate::sketch2d::loose_end(segs, 0) {
        Some(p) => lemma_walk_stays_inside(s, segs, p, segs.len()),
        None => {},
    }
}

proof fn lemma_loose_end_inside(s: SketchModel, segs: Seq<Segment>, from: int)
    requires
        0 <= from,
        forall|i: int|
            0 <= i < segs.len() ==> s.has_point((#[trigger] segs[i]).a) && s.has_point(segs[i].b),
    ensures
        crate::sketch2d::loose_end(segs, from) matches Some(p) ==> s.has_point(p),
    decreases segs.len() - from,
{
    if from < segs.len() {
        assert(s.has_point(segs[from].a) && s.has_point(segs[from].b));
        lemma_loose_end_inside(s, segs, from + 1);
    }
}

proof fn lemma_walk_stays_inside(s: SketchModel, segs: Seq<Segment>, start: PointId, steps: nat)
    requires
        s.has_point(start),
        forall|i: int|
            0 <= i < segs.len() ==> s.has_point((#[trigger] segs[i]).a) && s.has_point(segs[i].b),
    ensures
        crate::sketch2d::walk(segs, start, steps) matches Some(w) ==> s.knows(w),
{
    crate::sketch2d::lemma_walk_shape(segs, start, steps);
    match crate::sketch2d::walk(segs, start, steps) {
        Some(w) => {
            assert forall|i: int| 0 <= i < w.points.len() implies s.has_point(
                #[trigger] w.points[i],
            ) by {
                if i > 0 {
                    let seg = segs[w.path[i - 1]];
                    assert(w.points[(i - 1) + 1] == seg.across(w.points[i - 1]));
                }
            }
        },
        None => {},
    }
}

/// A closed walk uses every segment exactly once, goes from each point along a
/// segment that touches it to that segment's other end, and ends where it
/// began.
pub proof fn law_a_closed_walk_is_one_loop(segs: Seq<Segment>)
    ensures
        crate::sketch2d::closed_walk(segs) matches Some(w) ==> {
            &&& w.path.len() == segs.len()
            &&& w.path.no_duplicates()
            &&& forall|i: int| 0 <= i < segs.len() ==> #[trigger] w.path.contains(i)
            &&& w.points.len() == segs.len() + 1
            &&& w.points.first() == w.points.last()
            &&& forall|k: int|
                0 <= k < segs.len() ==> {
                    &&& 0 <= #[trigger] w.path[k] < segs.len()
                    &&& segs[w.path[k]].touches(w.points[k])
                    &&& w.points[k + 1] == segs[w.path[k]].across(w.points[k])
                }
        },
{
    if segs.len() >= 3 {
        crate::sketch2d::lemma_walk_shape(segs, segs[0].a, segs.len());
        match crate::sketch2d::closed_walk(segs) {
            Some(w) => {
                lemma_full_path_covers(w.path, segs.len());
            },
            None => {},
        }
    }
}

/// `n` distinct numbers below `n` are all of them.
proof fn lemma_full_path_covers(path: Seq<int>, n: nat)
    requires
        path.len() == n,
        path.no_duplicates(),
        forall|k: int| 0 <= k < n ==> 0 <= #[trigger] path[k] < n,
    ensures
        forall|i: int| 0 <= i < n ==> #[trigger] path.contains(i),
{
    let whole = vstd::set_lib::set_int_range(0, n as int);
    vstd::set_lib::lemma_int_range(0, n as int);
    path.unique_seq_to_set();
    let got = path.to_set();
    assert(got.subset_of(whole)) by {
        assert forall|i: int| got.contains(i) implies whole.contains(i) by {
            let k = choose|k: int| 0 <= k < path.len() && path[k] == i;
            assert(0 <= path[k] < n);
        }
    }
    vstd::set_lib::lemma_subset_equality(got, whole);
    assert forall|i: int| 0 <= i < n implies #[trigger] path.contains(i) by {
        assert(got.contains(i));
    }
}

/// The segments of a simple polygon, in the order its corners are met: `order`
/// lists every segment once, the corners are distinct, and segment `order[i]`
/// joins corner `i` to the next one around.
pub open spec fn polygon(segs: Seq<Segment>, order: Seq<int>, corners: Seq<PointId>) -> bool {
    &&& segs.len() >= 3
    &&& order.len() == segs.len()
    &&& corners.len() == segs.len()
    &&& order.no_duplicates()
    &&& corners.no_duplicates()
    &&& forall|i: int| 0 <= i < order.len() ==> 0 <= #[trigger] order[i] < segs.len()
    &&& forall|i: int| 0 <= i < order.len() ==> joins(segs[#[trigger] order[i]], corners[i], corners[around(i + 1, order.len() as int)])
}

/// The index `i` brought back into a ring of `n`.
pub open spec fn around(i: int, n: int) -> int {
    if i >= n {
        i - n
    } else {
        i
    }
}

/// The segment runs between the two points, either way.
pub open spec fn joins(seg: Segment, p: PointId, q: PointId) -> bool {
    (seg.a == p && seg.b == q) || (seg.a == q && seg.b == p)
}

/// A simple polygon is always found: walking its segments closes the loop, once
/// around.
pub proof fn law_a_polygon_closes(segs: Seq<Segment>, order: Seq<int>, corners: Seq<PointId>)
    requires
        polygon(segs, order, corners),
    ensures
        crate::sketch2d::closed_walk(segs) is Some,
        crate::sketch2d::closed_walk(segs)->Some_0.points.drop_last().no_duplicates(),
{
    let n = segs.len() as int;
    lemma_full_path_covers(order, segs.len());
    assert(order.contains(0));
    let m = order.index_of(0);
    assert(joins(segs[order[m]], corners[m], corners[around(m + 1, n)]));
    if segs[0].a == corners[m] {
        let (o, c) = (turned(order, m), turned(corners, m));
        lemma_turned_polygon(segs, order, corners, m);
        lemma_polygon_walk(segs, o, c, segs.len());
    } else {
        let (fo, fc) = (flipped_order(order), flipped_corners(corners));
        lemma_flipped_polygon(segs, order, corners);
        let k = n - 1 - m;
        assert(fo[k] == order[m]);
        assert(fc[k] == corners[around(m + 1, n)]);
        lemma_turned_polygon(segs, fo, fc, k);
        lemma_polygon_walk(segs, turned(fo, k), turned(fc, k), segs.len());
    }
}

/// The sequence begun at position `m`.
spec fn turned<T>(s: Seq<T>, m: int) -> Seq<T> {
    Seq::new(s.len(), |i: int| s[around(i + m, s.len() as int)])
}

/// The segments met when going round the other way.
spec fn flipped_order(order: Seq<int>) -> Seq<int> {
    Seq::new(order.len(), |i: int| order[order.len() - 1 - i])
}

/// The corners met when going round the other way.
spec fn flipped_corners(corners: Seq<PointId>) -> Seq<PointId> {
    Seq::new(corners.len(), |i: int| corners[around(corners.len() - i, corners.len() as int)])
}

proof fn lemma_turned_polygon(segs: Seq<Segment>, order: Seq<int>, corners: Seq<PointId>, m: int)
    requires
        polygon(segs, order, corners),
        0 <= m < segs.len(),
    ensures
        polygon(segs, turned(order, m), turned(corners, m)),
        turned(order, m)[0] == order[m],
        turned(corners, m)[0] == corners[m],
{
    let n = segs.len() as int;
    let (o, c) = (turned(order, m), turned(corners, m));
    assert forall|i: int| 0 <= i < n implies 0 <= #[trigger] o[i] < n && joins(
        segs[o[i]],
        c[i],
        c[around(i + 1, n)],
    ) by {
        let j = around(i + m, n);
        assert(o[i] == order[j]);
        assert(joins(segs[order[j]], corners[j], corners[around(j + 1, n)]));
    }
    assert forall|i: int, j: int| 0 <= i < n && 0 <= j < n && i != j implies o[i] != o[j] && c[i]
        != c[j] by {
        assert(around(i + m, n) != around(j + m, n));
    }
}

proof fn lemma_flipped_polygon(segs: Seq<Segment>, order: Seq<int>, corners: Seq<PointId>)
    requires
        polygon(segs, order, corners),
    ensures
        polygon(segs, flipped_order(order), flipped_corners(corners)),
{
    let n = segs.len() as int;
    let (o, c) = (flipped_order(order), flipped_corners(corners));
    assert forall|i: int| 0 <= i < n implies 0 <= #[trigger] o[i] < n && joins(
        segs[o[i]],
        c[i],
        c[around(i + 1, n)],
    ) by {
        let j = n - 1 - i;
        assert(o[i] == order[j]);
        assert(joins(segs[order[j]], corners[j], corners[around(j + 1, n)]));
    }
    assert forall|i: int, j: int| 0 <= i < n && 0 <= j < n && i != j implies o[i] != o[j] && c[i]
        != c[j] by {
        assert(around(n - i, n) != around(n - j, n));
    }
}

/// Walking a polygon that begins with the first segment goes once around.
pub proof fn lemma_polygon_walk(segs: Seq<Segment>, order: Seq<int>, corners: Seq<PointId>, k: nat)
    requires
        polygon(segs, order, corners),
        order[0] == 0,
        segs[0].a == corners[0],
        k <= segs.len(),
    ensures
        crate::sketch2d::walk(segs, segs[0].a, k) == Some(
            Walk {
                path: order.take(k as int),
                points: Seq::new((k + 1) as nat, |i: int| corners[around(i, segs.len() as int)]),
            },
        ),
        k == segs.len() ==> crate::sketch2d::closed_walk(segs) is Some
            && crate::sketch2d::closed_walk(segs)->Some_0.points.drop_last().no_duplicates(),
    decreases k,
{
    let n = segs.len() as int;
    if k == 0 {
        assert(order.take(0) =~= seq![]);
        assert(Seq::new(1, |i: int| corners[around(i, n)]) =~= seq![segs[0].a]);
    } else {
        let j = k - 1;
        lemma_polygon_walk(segs, order, corners, j as nat);
        let w = crate::sketch2d::walk(segs, segs[0].a, j as nat)->Some_0;
        let at = corners[j];
        assert(w.points.last() == at);
        assert(joins(segs[order[j]], corners[j], corners[around(j + 1, n)]));
        assert(!w.path.contains(order[j])) by {
            if w.path.contains(order[j]) {
                let i = w.path.index_of(order[j]);
                assert(order[i] == order[j]);
            }
        }
        crate::sketch2d::lemma_next_segment(segs, w.path, at, 0);
        let next = crate::sketch2d::next_segment(segs, w.path, at, 0);
        assert(next is Some);
        let i = next->Some_0;
        assert(i == order[j]) by {
            lemma_full_path_covers(order, segs.len());
            assert(order.contains(i));
            let q = order.index_of(i);
            assert(joins(segs[order[q]], corners[q], corners[around(q + 1, n)]));
            if j == 0 {
                assert(order[0] == 0);
            } else if q != j {
                // The other segment at this corner is the one just used.
                assert(corners[around(q + 1, n)] == at);
                assert(around(q + 1, n) == j);
                assert(w.path[q] == order[q]);
                assert(w.path.contains(i));
            }
        }
        assert(segs[i].across(at) == corners[around(j + 1, n)]) by {
            assert(corners[around(j + 1, n)] != at);
        }
        assert(order.take(k as int) =~= w.path.push(i));
        assert(Seq::new((k + 1) as nat, |i: int| corners[around(i, n)]) =~= w.points.push(
            corners[around(j + 1, n)],
        ));
    }
    if k == n {
        let w = crate::sketch2d::walk(segs, segs[0].a, k)->Some_0;
        assert(w.points.last() == corners[around(n, n)]);
        assert(w.points.drop_last() =~= corners);
    }
}

/// The boundary is continuous: each segment ends where the next one begins, and
/// the last one ends where the first begins.
pub proof fn law_boundary_is_continuous(s: SketchModel)
    ensures
        s.profile_elements() matches Some(elems) ==> {
            &&& elems.len() == s.lines.len() + s.beziers.len()
            &&& forall|i: int|
                0 <= i < elems.len() ==> (#[trigger] elems[i]).last() == elems[around(
                    i + 1,
                    elems.len() as int,
                )].first()
        },
{
    let segs = s.segments();
    law_a_closed_walk_is_one_loop(segs);
    match crate::sketch2d::closed_walk(segs) {
        Some(w) => {
            let elems = s.elements(segs, w);
            assert forall|i: int| 0 <= i < elems.len() implies (#[trigger] elems[i]).last()
                == elems[around(i + 1, elems.len() as int)].first() by {
                let p = w.points[i];
                assert(0 <= w.path[i] < segs.len());
                assert(elems[i].last() == s.place(w.points[i + 1]));
            }
        },
        None => {},
    }
}

/// Without beziers the loop of places and the boundary agree: one is there
/// exactly when the other is, and the boundary's segments begin at the loop's
/// places.
pub proof fn law_straight_boundary_is_the_loop(s: SketchModel)
    requires
        s.beziers.len() == 0,
    ensures
        match (s.profile_loop(), s.profile_elements()) {
            (Some(places), Some(elems)) => places.len() == elems.len() && forall|i: int|
                0 <= i < places.len() ==> (#[trigger] elems[i]).first() == places[i],
            (None, None) => true,
            _ => false,
        },
{
    assert(s.segments() =~= s.line_segments());
    law_a_closed_walk_is_one_loop(s.segments());
}

/// The walk's own order shows that its segments form a polygon.
proof fn lemma_loop_is_polygon(segs: Seq<Segment>)
    requires
        crate::sketch2d::closed_walk(segs) is Some,
        crate::sketch2d::closed_walk(segs)->Some_0.points.drop_last().no_duplicates(),
    ensures
        ({
            let w = crate::sketch2d::closed_walk(segs)->Some_0;
            polygon(segs, w.path, w.points.drop_last())
        }),
{
    law_a_closed_walk_is_one_loop(segs);
    let w = crate::sketch2d::closed_walk(segs)->Some_0;
    let corners = w.points.drop_last();
    let n = segs.len() as int;
    assert forall|i: int| 0 <= i < n implies joins(
        segs[#[trigger] w.path[i]],
        corners[i],
        corners[around(i + 1, n)],
    ) by {
        assert(segs[w.path[i]].touches(w.points[i]));
        assert(w.points[i + 1] == segs[w.path[i]].across(w.points[i]));
    }
}

/// Splitting a line of a simple closed loop leaves a simple closed loop with
/// one more point.
pub proof fn law_splitting_keeps_the_loop(s: SketchModel, line: LineId, at: SketchPoint)
    requires
        s.well_formed(),
        line.0 < s.lines.len(),
        s.points.len() <= usize::MAX,
        s.loop_order() matches Some(order) && order.no_duplicates(),
    ensures
        s.split(line, at).loop_order() matches Some(order) && order.no_duplicates() && order.len()
            == s.loop_order()->Some_0.len() + 1,
{
    let segs = s.line_segments();
    let n = segs.len() as int;
    let k = line.0 as int;
    let t = s.split(line, at);
    let segs2 = t.line_segments();
    law_a_closed_walk_is_one_loop(segs);
    lemma_loop_is_polygon(segs);
    law_well_formed_sketches_know_their_walks(s);
    let w = crate::sketch2d::closed_walk(segs)->Some_0;
    let order = w.path;
    let corners = w.points.drop_last();
    assert(order.contains(k));
    let j = order.index_of(k);
    let p = PointId(s.points.len() as usize);
    assert(joins(segs[order[j]], corners[j], corners[around(j + 1, n)]));
    let forward = segs[k].a == corners[j];
    let (first, second) = if forward {
        (k, n)
    } else {
        (n, k)
    };
    let order2 = order.update(j, first).insert(j + 1, second);
    let corners2 = corners.insert(j + 1, p);
    assert forall|i: int| 0 <= i < corners.len() implies #[trigger] corners[i] != p by {
        assert(s.has_point(w.points[i]));
    }
    assert(corners2.no_duplicates());
    assert(order2.no_duplicates()) by {
        assert forall|a: int, b: int| 0 <= a < b < order2.len() implies order2[a] != order2[b] by {
            let ia = if a <= j {
                a
            } else {
                a - 1
            };
            let ib = if b <= j {
                b
            } else {
                b - 1
            };
            assert(0 <= order[ia] < n && 0 <= order[ib] < n);
        }
    }
    assert forall|i: int| 0 <= i < n + 1 implies 0 <= #[trigger] order2[i] < n + 1 && joins(
        segs2[order2[i]],
        corners2[i],
        corners2[around(i + 1, n + 1)],
    ) by {
        if i < j {
            assert(order2[i] == order[i]);
            assert(joins(segs[order[i]], corners[i], corners[around(i + 1, n)]));
            assert(order[i] != order[j]);
            assert(segs2[order[i]] == segs[order[i]]);
        } else if i > j + 1 {
            assert(order2[i] == order[i - 1]);
            assert(joins(segs[order[i - 1]], corners[i - 1], corners[around(i, n)]));
            assert(order[i - 1] != order[j]);
            assert(segs2[order[i - 1]] == segs[order[i - 1]]);
        }
    }
    assert(polygon(segs2, order2, corners2));
    law_a_polygon_closes(segs2, order2, corners2);
    law_a_closed_walk_is_one_loop(segs2);
}

/// Deleting points leaves a simple closed loop of exactly the survivors.
pub proof fn law_deleting_keeps_a_loop(s: SketchModel, remove: Seq<PointId>)
    requires
        s.can_delete(remove),
        s.lines.len() <= usize::MAX,
    ensures
        s.without_points(remove).loop_order() matches Some(order) && order.no_duplicates()
            && order.len() == s.without_points(remove).points.len(),
        3 <= s.without_points(remove).points.len() < s.loop_order()->Some_0.len(),
        s.without_points(remove).lines.len() == s.without_points(remove).points.len(),
{
    let t = s.without_points(remove);
    let segs = t.line_segments();
    let n = segs.len() as int;
    law_a_closed_walk_is_one_loop(s.line_segments());
    let order = Seq::new(n as nat, |i: int| i);
    let corners = Seq::new(n as nat, |i: int| PointId(i as usize));
    assert forall|i: int| 0 <= i < n implies joins(
        segs[#[trigger] order[i]],
        corners[i],
        corners[around(i + 1, n)],
    ) by {}
    assert(polygon(segs, order, corners));
    law_a_polygon_closes(segs, order, corners);
    law_a_closed_walk_is_one_loop(segs);
}

/// Curving a line of a simple closed boundary leaves a closed boundary of as
/// many segments.
pub proof fn law_curving_keeps_the_boundary(
    s: SketchModel,
    line: LineId,
    c1: [Scalar; 2],
    c2: [Scalar; 2],
)
    requires
        line.0 < s.lines.len(),
        crate::sketch2d::closed_walk(s.segments()) matches Some(w)
            && w.points.drop_last().no_duplicates(),
    ensures
        s.curved(line, c1, c2).profile_elements() matches Some(elems) && elems.len()
            == s.profile_elements()->Some_0.len(),
{
    let segs = s.segments();
    let n = segs.len() as int;
    let k = line.0 as int;
    let t = s.curved(line, c1, c2);
    let segs2 = t.segments();
    law_a_closed_walk_is_one_loop(segs);
    lemma_loop_is_polygon(segs);
    let w = crate::sketch2d::closed_walk(segs)->Some_0;
    let corners = w.points.drop_last();
    let moved = |i: int|
        if i < k {
            i
        } else if i == k {
            n - 1
        } else {
            i - 1
        };
    let order2 = Seq::new(n as nat, |i: int| moved(w.path[i]));
    assert forall|i: int| 0 <= i < n implies 0 <= #[trigger] order2[i] < n && joins(
        segs2[order2[i]],
        corners[i],
        corners[around(i + 1, n)],
    ) by {
        let q = w.path[i];
        assert(joins(segs[q], corners[i], corners[around(i + 1, n)]));
        assert(segs2[moved(q)].a == segs[q].a && segs2[moved(q)].b == segs[q].b);
    }
    assert forall|a: int, b: int| 0 <= a < n && 0 <= b < n && a != b implies order2[a]
        != order2[b] by {
        assert(w.path[a] != w.path[b]);
        assert(0 <= w.path[a] < n && 0 <= w.path[b] < n);
    }
    assert(polygon(segs2, order2, corners));
    law_a_polygon_closes(segs2, order2, corners);
    law_a_closed_walk_is_one_loop(segs2);
}

/// The places in `order`, read off the sketch's own points.
pub open spec fn places_are(s: SketchModel, order: Seq<PointId>, places: Seq<[Scalar; 2]>) -> bool {
    &&& places.len() == order.len()
    &&& forall|i: int|
        0 <= i < order.len() ==> (#[trigger] places[i])[0] == s.points[order[i].0 as int].x
            && places[i][1] == s.points[order[i].0 as int].y
}

/// Some lines, each taken once and in any order, join the points of `order` one after
/// the other, and the last to the first again.
pub open spec fn ring_of(s: SketchModel, order: Seq<PointId>, taken: Seq<int>) -> bool {
    &&& taken.len() == s.lines.len()
    &&& order.len() == s.lines.len()
    &&& taken.no_duplicates()
    &&& forall|i: int|
        0 <= i < taken.len() ==> {
            let line = s.lines[#[trigger] taken[i]];
            let next = order[around(i + 1, order.len() as int)];
            &&& 0 <= taken[i] < s.lines.len()
            &&& (line.a == order[i] && line.b == next) || (line.b == order[i] && line.a == next)
        }
}

/// The loop goes round along the lines: it sets out along the first line, its points,
/// in order, are joined by the lines, each used once, three at least, and the profile
/// is where those points lie.
pub proof fn law_the_loop_follows_the_lines(s: SketchModel)
    ensures
        s.loop_order() is Some == s.profile_loop() is Some,
        s.loop_order() matches Some(order) ==> {
            &&& order.len() >= 3
            &&& order[0] == s.lines[0].a
            &&& order[1] == s.lines[0].b
            &&& exists|taken: Seq<int>| #[trigger] ring_of(s, order, taken)
            &&& places_are(s, order, s.profile_loop()->Some_0)
        },
{
    let segs = s.line_segments();
    law_a_closed_walk_is_one_loop(segs);
    if let Some(w) = crate::sketch2d::closed_walk(segs) {
        let order = s.loop_order()->Some_0;
        crate::sketch2d::lemma_walk_shape(segs, segs[0].a, segs.len());
        lemma_walk_sets_out(segs, segs.len());
        assert forall|i: int| 0 <= i < order.len() implies {
            let line = s.lines[#[trigger] w.path[i]];
            let next = order[around(i + 1, order.len() as int)];
            &&& 0 <= w.path[i] < s.lines.len()
            &&& (line.a == order[i] && line.b == next) || (line.b == order[i] && line.a == next)
        } by {
            assert(segs[w.path[i]].touches(w.points[i]));
            assert(w.points[i + 1] == segs[w.path[i]].across(w.points[i]));
        }
        assert(ring_of(s, order, w.path));
    }
}

/// Whether element `e` is segment `k` of the sketch, lines first and then cubics, run
/// along from point `p` to point `q`: it begins and ends where they lie, and the
/// handle of a cubic that belongs to an end comes first if the run begins there.
pub open spec fn runs_along(
    s: SketchModel,
    k: int,
    p: PointId,
    q: PointId,
    e: ProfileElem,
) -> bool {
    let (from, to) = (s.points[p.0 as int], s.points[q.0 as int]);
    if k < s.lines.len() {
        let line = s.lines[k];
        &&& (line.a == p && line.b == q) || (line.b == p && line.a == q)
        &&& e matches ProfileElem::Line { a, b } && a[0] == from.x && a[1] == from.y && b[0]
            == to.x && b[1] == to.y
    } else {
        let cubic = s.beziers[k - s.lines.len()];
        &&& (cubic.a == p && cubic.b == q) || (cubic.b == p && cubic.a == q)
        &&& e matches ProfileElem::Bezier { a, c1, c2, b } && {
            &&& a[0] == from.x && a[1] == from.y && b[0] == to.x && b[1] == to.y
            &&& if cubic.a == p {
                c1 == cubic.c1 && c2 == cubic.c2
            } else {
                c1 == cubic.c2 && c2 == cubic.c1
            }
        }
    }
}

/// The elements run along all segments of the sketch, each once, from point to point.
pub open spec fn runs_over(
    s: SketchModel,
    points: Seq<PointId>,
    taken: Seq<int>,
    elems: Seq<ProfileElem>,
) -> bool {
    &&& taken.len() == s.lines.len() + s.beziers.len()
    &&& elems.len() == taken.len()
    &&& points.len() == taken.len() + 1
    &&& taken.no_duplicates()
    &&& forall|i: int|
        0 <= i < taken.len() ==> 0 <= #[trigger] taken[i] < s.lines.len() + s.beziers.len()
            && runs_along(s, taken[i], points[i], points[i + 1], elems[i])
}

/// A boundary runs along the sketch's own lines and cubics, each once, the first one
/// first and as it is drawn, and comes back to where it began.
pub proof fn law_the_boundary_follows_the_segments(s: SketchModel)
    ensures
        s.profile_elements() matches Some(elems) ==> elems.len() >= 3 && exists|
            points: Seq<PointId>,
            taken: Seq<int>,
        | #[trigger]
            runs_over(s, points, taken, elems) && points.first() == points.last() && taken[0] == 0
                && points[0] == s.segments()[0].a,
{
    let segs = s.segments();
    law_a_closed_walk_is_one_loop(segs);
    if let Some(w) = crate::sketch2d::closed_walk(segs) {
        lemma_runs_over(s, w);
        let elems = s.profile_elements()->Some_0;
        assert(elems == s.elements(segs, w));
        assert(elems.len() >= 3);
        crate::sketch2d::lemma_walk_shape(segs, segs[0].a, segs.len());
        lemma_walk_sets_out(segs, segs.len());
        assert(runs_over(s, w.points, w.path, elems) && w.points.first() == w.points.last());
    }
}

/// A path runs along the sketch's own lines and cubics, each once, and begins at a
/// point where no other segment ends.
pub proof fn law_the_path_follows_the_segments(s: SketchModel)
    ensures
        s.path_elements() matches Some(elems) ==> elems.len() >= 1 && exists|
            points: Seq<PointId>,
            taken: Seq<int>,
        | #[trigger]
            runs_over(s, points, taken, elems) && only_end_of(s, points.first(), taken[0]),
{
    let segs = s.segments();
    lemma_loose_end_is_loose(segs, 0);
    if let Some(w) = crate::sketch2d::open_walk(segs) {
        let start = crate::sketch2d::loose_end(segs, 0)->Some_0;
        crate::sketch2d::lemma_walk_shape(segs, start, segs.len());
        lemma_runs_over(s, w);
        let elems = s.path_elements()->Some_0;
        assert(elems == s.elements(segs, w));
        assert(w.points.first() == start);
        let first = w.path[0];
        assert(segs[first].touches(w.points[0]));
        assert forall|k: int| 0 <= k < segs.len() && k != first implies !(#[trigger] segs[k]).touches(
            start,
        ) by {
            if segs[k].touches(start) {
                lemma_two_ends(segs, start, first, k);
            }
        }
        assert forall|k: int| 0 <= k < s.lines.len() && k != first implies (
        #[trigger] s.lines[k]).a != start && s.lines[k].b != start by {
            assert(!segs[k].touches(start));
        }
        assert forall|k: int|
            0 <= k < s.beziers.len() && k + s.lines.len() != first implies (
        #[trigger] s.beziers[k]).a != start && s.beziers[k].b != start by {
            assert(!segs[k + s.lines.len()].touches(start));
        }
        assert(runs_over(s, w.points, w.path, elems));
        assert(only_end_of(s, w.points.first(), w.path[0]));
    }
}

/// No segment but segment `k`, counting lines first and then cubics, ends at `p`.
pub open spec fn only_end_of(s: SketchModel, p: PointId, k: int) -> bool {
    &&& forall|i: int|
        0 <= i < s.lines.len() && i != k ==> (#[trigger] s.lines[i]).a != p && s.lines[i].b != p
    &&& forall|i: int|
        0 <= i < s.beziers.len() && i + s.lines.len() != k ==> (#[trigger] s.beziers[i]).a != p
            && s.beziers[i].b != p
}

/// Two segments that end at a point make two ends there.
proof fn lemma_two_ends(segs: Seq<Segment>, p: PointId, i: int, j: int)
    requires
        0 <= i < segs.len(),
        0 <= j < segs.len(),
        i != j,
        segs[i].touches(p),
        segs[j].touches(p),
    ensures
        crate::sketch2d::degree(segs, p) >= 2,
    decreases segs.len(),
{
    let n = segs.len() - 1;
    if i < n && j < n {
        lemma_two_ends(segs.drop_last(), p, i, j);
    } else if i == n {
        lemma_one_end(segs.drop_last(), p, j);
    } else {
        lemma_one_end(segs.drop_last(), p, i);
    }
}

proof fn lemma_one_end(segs: Seq<Segment>, p: PointId, i: int)
    requires
        0 <= i < segs.len(),
        segs[i].touches(p),
    ensures
        crate::sketch2d::degree(segs, p) >= 1,
    decreases segs.len(),
{
    if i < segs.len() - 1 {
        lemma_one_end(segs.drop_last(), p, i);
    }
}

/// A walk from the first segment's first end sets out along that segment.
proof fn lemma_walk_sets_out(segs: Seq<Segment>, steps: nat)
    requires
        segs.len() > 0,
        steps > 0,
    ensures
        crate::sketch2d::walk(segs, segs[0].a, steps) matches Some(w) ==> {
            &&& w.path.len() == steps
            &&& w.points.len() == steps + 1
            &&& w.path[0] == 0
            &&& w.points[0] == segs[0].a
            &&& w.points[1] == segs[0].b
        },
    decreases steps,
{
    crate::sketch2d::lemma_walk_shape(segs, segs[0].a, steps);
    if steps == 1 {
        reveal_with_fuel(crate::sketch2d::walk, 2);
        reveal_with_fuel(crate::sketch2d::next_segment, 2);
    } else {
        lemma_walk_sets_out(segs, (steps - 1) as nat);
    }
}

/// A loose end is the end of one segment only.
proof fn lemma_loose_end_is_loose(segs: Seq<Segment>, from: int)
    requires
        0 <= from,
    ensures
        crate::sketch2d::loose_end(segs, from) matches Some(p) ==> crate::sketch2d::degree(segs, p)
            == 1 && segs.len() > 0,
    decreases segs.len() - from,
{
    if from < segs.len() {
        lemma_loose_end_is_loose(segs, from + 1);
    }
}

/// The elements of a walk run along its segments.
proof fn lemma_runs_over(s: SketchModel, w: Walk)
    requires
        w.path.len() == s.segments().len(),
        w.points.len() == w.path.len() + 1,
        w.path.no_duplicates(),
        forall|k: int|
            0 <= k < w.path.len() ==> {
                &&& 0 <= #[trigger] w.path[k] < s.segments().len()
                &&& s.segments()[w.path[k]].touches(w.points[k])
                &&& w.points[k + 1] == s.segments()[w.path[k]].across(w.points[k])
            },
    ensures
        runs_over(s, w.points, w.path, s.elements(s.segments(), w)),
{
    let segs = s.segments();
    let elems = s.elements(segs, w);
    assert forall|i: int| 0 <= i < w.path.len() implies 0 <= #[trigger] w.path[i] < s.lines.len()
        + s.beziers.len() && runs_along(s, w.path[i], w.points[i], w.points[i + 1], elems[i]) by {
        let k = w.path[i];
        assert(segs[k].touches(w.points[i]));
        if k < s.lines.len() {
            assert(segs[k] == s.line_segments()[k]);
        }
    }
}

/// The positions of the points that are not listed, one after the other.
pub open spec fn unlisted_at(order: Seq<PointId>, remove: Seq<PointId>, at: Seq<int>) -> bool {
    &&& forall|k: int|
        0 <= k < at.len() ==> 0 <= #[trigger] at[k] < order.len() && !remove.contains(order[at[k]])
    &&& forall|j: int, k: int|
        #![trigger at[j], at[k]]
        0 <= j < k < at.len() ==> at[j] < at[k]
    &&& forall|i: int|
        0 <= i < order.len() && !remove.contains(#[trigger] order[i]) ==> at.contains(i)
}

/// Deleting takes away the listed points and no others: the points left lie, in loop
/// order, where those points of the loop lie that are not listed, and the lines join
/// them one after the other and the last to the first. Circles and constraints go.
pub proof fn law_deleting_takes_the_listed_points(s: SketchModel, remove: Seq<PointId>)
    requires
        s.can_delete(remove),
        s.lines.len() <= usize::MAX,
    ensures
        ({
            let order = s.loop_order()->Some_0;
            let t = s.without_points(remove);
            exists|at: Seq<int>|
                {
                    &&& #[trigger] unlisted_at(order, remove, at)
                    &&& t.points.len() == at.len()
                    &&& t.lines.len() == at.len()
                    &&& forall|k: int|
                        0 <= k < at.len() ==> {
                            &&& (#[trigger] t.points[k]) == s.points[order[at[k]].0 as int]
                            &&& t.lines[k].a.0 == k
                            &&& t.lines[k].b.0 == around(k + 1, at.len() as int)
                        }
                }
        }),
        s.without_points(remove).circles.len() == 0,
        s.without_points(remove).constraints.len() == 0,
        s.without_points(remove).beziers == s.beziers,
{
    let order = s.loop_order()->Some_0;
    let t = s.without_points(remove);
    law_a_closed_walk_is_one_loop(s.line_segments());
    let at = lemma_survivors(order, remove);
    let kept = crate::sketch2d::survivors(order, remove);
    assert forall|k: int| 0 <= k < at.len() implies {
        &&& (#[trigger] t.points[k]) == s.points[order[at[k]].0 as int]
        &&& t.lines[k].a.0 == k
        &&& t.lines[k].b.0 == around(k + 1, at.len() as int)
    } by {
        assert(kept[k] == order[at[k]]);
    }
    assert(unlisted_at(order, remove, at));
}

/// Points can be deleted exactly if the lines form a closed loop, one of its points is
/// listed, and at least three are not.
pub proof fn law_when_points_can_be_deleted(s: SketchModel, remove: Seq<PointId>)
    ensures
        s.can_delete(remove) == (s.loop_order() matches Some(order) && {
            &&& exists|i: int| 0 <= i < order.len() && remove.contains(#[trigger] order[i])
            &&& exists|i: int, j: int, k: int|
                {
                    &&& 0 <= i < j < k < order.len()
                    &&& !remove.contains(#[trigger] order[i])
                    &&& !remove.contains(#[trigger] order[j])
                    &&& !remove.contains(#[trigger] order[k])
                }
        }),
{
    if let Some(order) = s.loop_order() {
        let at = lemma_survivors(order, remove);
        let n = order.len();
        if at.len() == n {
            lemma_all_positions(at, n);
            assert forall|i: int| 0 <= i < n implies !remove.contains(#[trigger] order[i]) by {
                assert(at.contains(i));
                let k = at.index_of(i);
                assert(at[k] == i);
            }
        } else if forall|i: int| 0 <= i < n ==> !remove.contains(#[trigger] order[i]) {
            assert forall|i: int| 0 <= i < n implies #[trigger] at.contains(i) by {
                assert(!remove.contains(order[i]));
            }
            lemma_covering_is_long(at, n);
        }
        if at.len() >= 3 {
            assert(at[0] < at[1] && at[1] < at[2]);
            assert(!remove.contains(order[at[0]]) && !remove.contains(order[at[1]])
                && !remove.contains(order[at[2]]));
        } else if exists|i: int, j: int, k: int|
            {
                &&& 0 <= i < j < k < order.len()
                &&& !remove.contains(#[trigger] order[i])
                &&& !remove.contains(#[trigger] order[j])
                &&& !remove.contains(#[trigger] order[k])
            } {
            let (i, j, k) = choose|i: int, j: int, k: int|
                {
                    &&& 0 <= i < j < k < order.len()
                    &&& !remove.contains(#[trigger] order[i])
                    &&& !remove.contains(#[trigger] order[j])
                    &&& !remove.contains(#[trigger] order[k])
                };
            assert(at.contains(i) && at.contains(j) && at.contains(k));
            let (a, b, c) = (at.index_of(i), at.index_of(j), at.index_of(k));
            assert(at[a] == i && at[b] == j && at[c] == k);
        }
    }
}

/// Where the survivors stand.
proof fn lemma_survivors(order: Seq<PointId>, remove: Seq<PointId>) -> (at: Seq<int>)
    ensures
        unlisted_at(order, remove, at),
        at.len() == crate::sketch2d::survivors(order, remove).len(),
        at.len() <= order.len(),
        forall|k: int|
            0 <= k < at.len() ==> #[trigger] crate::sketch2d::survivors(order, remove)[k]
                == order[at[k]],
    decreases order.len(),
{
    reveal(Seq::filter);
    if order.len() == 0 {
        seq![]
    } else {
        let front = order.drop_last();
        let n = order.len() - 1;
        let before = lemma_survivors(front, remove);
        let at = if remove.contains(order.last()) {
            before
        } else {
            before.push(n)
        };
        assert forall|k: int| 0 <= k < before.len() implies #[trigger] at[k] == before[k]
            && order[at[k]] == front[before[k]] by {}
        assert forall|i: int|
            0 <= i < order.len() && !remove.contains(#[trigger] order[i]) implies at.contains(i) by {
            if i < n {
                assert(front[i] == order[i]);
                assert(before.contains(i));
                let k = before.index_of(i);
                assert(at[k] == i);
            } else {
                assert(at[before.len() as int] == n);
            }
        }
        at
    }
}

/// `n` numbers below `n`, each larger than the one before, are all of them.
proof fn lemma_all_positions(at: Seq<int>, n: nat)
    requires
        at.len() == n,
        forall|k: int| 0 <= k < n ==> 0 <= #[trigger] at[k] < n,
        forall|j: int, k: int|
            #![trigger at[j], at[k]]
            0 <= j < k < at.len() ==> at[j] < at[k],
    ensures
        forall|i: int| 0 <= i < n ==> #[trigger] at.contains(i),
{
    lemma_full_path_covers(at, n);
}

/// Distinct numbers among which are all below `n` are at least `n`.
proof fn lemma_covering_is_long(at: Seq<int>, n: nat)
    requires
        forall|i: int| 0 <= i < n ==> #[trigger] at.contains(i),
        forall|j: int, k: int|
            #![trigger at[j], at[k]]
            0 <= j < k < at.len() ==> at[j] < at[k],
    ensures
        at.len() >= n,
{
    let whole = vstd::set_lib::set_int_range(0, n as int);
    vstd::set_lib::lemma_int_range(0, n as int);
    at.unique_seq_to_set();
    assert(whole.subset_of(at.to_set())) by {
        assert forall|i: int| whole.contains(i) implies at.to_set().contains(i) by {
            assert(at.contains(i));
        }
    }
    vstd::set_lib::lemma_len_subset(whole, at.to_set());
}

/// Splitting a line puts a new point at the given place and leads the line there: from
/// where it began to the new point under its own id, and on to where it ended. All
/// other points, lines, circles, cubics and constraints stay under their ids.
pub proof fn law_splitting_goes_through_the_new_point(
    s: SketchModel,
    line: LineId,
    at: SketchPoint,
    i: int,
)
    requires
        line.0 < s.lines.len(),
        s.points.len() <= usize::MAX,
    ensures
        ({
            let t = s.split(line, at);
            let (k, n, m) = (line.0 as int, s.points.len() as int, s.lines.len() as int);
            &&& t.points.len() == n + 1
            &&& t.points[n] == at
            &&& 0 <= i < n ==> t.points[i] == s.points[i]
            &&& t.lines.len() == m + 1
            &&& t.lines[k].a == s.lines[k].a
            &&& t.lines[k].b.0 == n
            &&& t.lines[m].a.0 == n
            &&& t.lines[m].b == s.lines[k].b
            &&& 0 <= i < m && i != k ==> t.lines[i] == s.lines[i]
            &&& t.circles == s.circles
            &&& t.beziers == s.beziers
            &&& t.constraints == s.constraints
        }),
{
}

/// Curving a line takes it out, later lines moving up, and puts in a cubic between the
/// same ends whose first handle is the one given for where the line began.
pub proof fn law_curving_replaces_the_line(
    s: SketchModel,
    line: LineId,
    c1: [Scalar; 2],
    c2: [Scalar; 2],
    i: int,
)
    requires
        line.0 < s.lines.len(),
    ensures
        ({
            let t = s.curved(line, c1, c2);
            let (k, n) = (line.0 as int, s.beziers.len() as int);
            &&& t.lines.len() == s.lines.len() - 1
            &&& 0 <= i < k ==> t.lines[i] == s.lines[i]
            &&& k < i < s.lines.len() ==> t.lines[i - 1] == s.lines[i]
            &&& t.beziers.len() == n + 1
            &&& 0 <= i < n ==> t.beziers[i] == s.beziers[i]
            &&& t.beziers[n].a == s.lines[k].a
            &&& t.beziers[n].b == s.lines[k].b
            &&& t.beziers[n].c1 == c1
            &&& t.beziers[n].c2 == c2
            &&& t.points == s.points
            &&& t.circles == s.circles
            &&& t.constraints == s.constraints
        }),
{
}

/// Aligning a cubic moves the handle that belongs to the node, and no other: a cubic
/// that does not meet the node stays as it is, and the ends never change.
pub proof fn law_aligning_moves_the_nodes_handle(
    b: SketchBezier,
    node: PointId,
    place: [Scalar; 2],
)
    ensures
        ({
            let after = crate::sketch2d::aligned(b, node, place);
            &&& after.a == b.a && after.b == b.b
            &&& after.c1 == (if b.a == node {
                place
            } else {
                b.c1
            })
            &&& after.c2 == (if b.b == node && b.a != node {
                place
            } else {
                b.c2
            })
        }),
{
}

} // verus!
