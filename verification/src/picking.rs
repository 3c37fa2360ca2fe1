//! From pixels and distances to what was hit.

use crate::scalar::Scalar;
use crate::selection::Pick;
use vstd::prelude::*;

verus! {

/// How many selected edges can be highlighted at once.
pub const SEL_EDGE_CAP: usize = 64;

/// The entities to emphasize: the selection, and the one under the cursor.
#[derive(Debug)]
pub struct Highlights {
    pub selected: Vec<Pick>,
    pub hovered: Option<Pick>,
}

/// The highlight block handed to the shaders.
#[derive(Debug)]
pub struct HighlightBlock {
    /// The selected face, whether there is one, the hovered face, whether there
    /// is one.
    pub faces: [u32; 4],
    /// How many selected edges follow, nothing, the hovered edge, whether there
    /// is one.
    pub edges: [u32; 4],
    /// The selected edges, and zeros up to the cap.
    pub sel_edges: Vec<u32>,
}

/// The selected edges, in order.
pub open spec fn edge_ids(selected: Seq<Pick>) -> Seq<u32>
    decreases selected.len(),
{
    if selected.len() == 0 {
        seq![]
    } else {
        let before = edge_ids(selected.drop_last());
        match selected.last() {
            Pick::Edge(id) => before.push(id),
            Pick::Face(_) => before,
        }
    }
}

/// The face selected first.
pub open spec fn first_face(selected: Seq<Pick>) -> Option<u32>
    decreases selected.len(),
{
    if selected.len() == 0 {
        None
    } else {
        match first_face(selected.drop_last()) {
            Some(id) => Some(id),
            None => match selected.last() {
                Pick::Face(id) => Some(id),
                Pick::Edge(_) => None,
            },
        }
    }
}

/// The edges shown: as many of the selected ones as fit.
pub open spec fn shown_edges(selected: Seq<Pick>) -> Seq<u32> {
    let all = edge_ids(selected);
    if all.len() <= SEL_EDGE_CAP {
        all
    } else {
        all.take(SEL_EDGE_CAP as int)
    }
}

/// Whether a value is there, as a number.
pub open spec fn flag(present: bool) -> u32 {
    if present {
        1
    } else {
        0
    }
}

/// A value or zero.
pub open spec fn or_zero(id: Option<u32>) -> u32 {
    match id {
        Some(id) => id,
        None => 0,
    }
}

/// The hovered face.
pub open spec fn hovered_face(hovered: Option<Pick>) -> Option<u32> {
    match hovered {
        Some(Pick::Face(id)) => Some(id),
        _ => None,
    }
}

/// The hovered edge.
pub open spec fn hovered_edge(hovered: Option<Pick>) -> Option<u32> {
    match hovered {
        Some(Pick::Edge(id)) => Some(id),
        _ => None,
    }
}

impl Highlights {
    /// The block for the shaders. One face and up to the cap of edges are
    /// highlighted.
    pub fn block(&self) -> (r: HighlightBlock)
        ensures
            r.faces@ == seq![
                or_zero(first_face(self.selected@)),
                flag(first_face(self.selected@) is Some),
                or_zero(hovered_face(self.hovered)),
                flag(hovered_face(self.hovered) is Some),
            ],
            r.edges@ == seq![
                shown_edges(self.selected@).len() as u32,
                0u32,
                or_zero(hovered_edge(self.hovered)),
                flag(hovered_edge(self.hovered) is Some),
            ],
            r.sel_edges@ == shown_edges(self.selected@) + Seq::new(
                (SEL_EDGE_CAP - shown_edges(self.selected@).len()) as nat,
                |i: int| 0u32,
            ),
    {
        let mut face: Option<u32> = None;
        let mut ids: Vec<u32> = Vec::new();
        let mut i: usize = 0;
        proof {
            assert(self.selected@.take(0) =~= seq![]);
        }
        while i < self.selected.len()
            invariant
                i <= self.selected@.len(),
                face == first_face(self.selected@.take(i as int)),
                ids@ == shown_edges(self.selected@.take(i as int)),
            decreases self.selected@.len() - i,
        {
            let ghost now = self.selected@.take(i as int);
            let ghost next = self.selected@.take(i + 1);
            proof {
                assert(next.drop_last() =~= now);
                assert(next.last() == self.selected@[i as int]);
            }
            match self.selected[i] {
                Pick::Face(id) => {
                    if face.is_none() {
                        face = Some(id);
                    }
                },
                Pick::Edge(id) => {
                    if ids.len() < SEL_EDGE_CAP {
                        ids.push(id);
                    }
                    proof {
                        assert(ids@ =~= shown_edges(next));
                    }
                },
            }
            i += 1;
        }
        proof {
            assert(self.selected@.take(i as int) =~= self.selected@);
        }
        let count: u32 = ids.len() as u32;
        let ghost shown = ids@;
        while ids.len() < SEL_EDGE_CAP
            invariant
                shown.len() <= ids@.len() <= SEL_EDGE_CAP,
                ids@ == shown + Seq::new((ids@.len() - shown.len()) as nat, |i: int| 0u32),
            decreases SEL_EDGE_CAP - ids@.len(),
        {
            ids.push(0);
            proof {
                assert(ids@ =~= shown + Seq::new((ids@.len() - shown.len()) as nat, |i: int| 0u32));
            }
        }
        let (sel, has_sel): (u32, u32) = match face {
            Some(id) => (id, 1),
            None => (0, 0),
        };
        let (hov_face, has_hov_face): (u32, u32) = match self.hovered {
            Some(Pick::Face(id)) => (id, 1),
            _ => (0, 0),
        };
        let (hov_edge, has_hov_edge): (u32, u32) = match self.hovered {
            Some(Pick::Edge(id)) => (id, 1),
            _ => (0, 0),
        };
        let r = HighlightBlock {
            faces: [sel, has_sel, hov_face, has_hov_face],
            edges: [count, 0, hov_edge, has_hov_edge],
            sel_edges: ids,
        };
        assert(r.faces@ =~= seq![sel, has_sel, hov_face, has_hov_face]);
        assert(r.edges@ =~= seq![count, 0u32, hov_edge, has_hov_edge]);
        r
    }
}

/// What the pick buffer holds for a face: its number and one, so that zero is
/// the background.
pub open spec fn encoded(face: Option<u32>) -> int {
    match face {
        Some(id) => id + 1,
        None => 0,
    }
}

/// The face a value of the pick buffer stands for.
pub fn decode_face(raw: u32) -> (r: Option<u32>)
    ensures
        encoded(r) == raw,
{
    if raw != 0 {
        Some(raw - 1)
    } else {
        None
    }
}

/// Whether a pixel can show a face at all: there is a mesh, and the pixel lies in
/// the frame.
pub fn can_hit(index_count: u32, px: u32, py: u32, width: u32, height: u32) -> (r: bool)
    ensures
        r == (index_count > 0 && px < width && py < height),
{
    index_count > 0 && px < width && py < height
}

/// An edge near the cursor is picked over the face behind it.
pub fn prefer_edge(edge: Option<u32>, face: Option<u32>) -> (r: Option<Pick>)
    ensures
        r == (match (edge, face) {
            (Some(e), _) => Some(Pick::Edge(e)),
            (None, Some(f)) => Some(Pick::Face(f)),
            (None, None) => None,
        }),
{
    match edge {
        Some(e) => Some(Pick::Edge(e)),
        None => match face {
            Some(f) => Some(Pick::Face(f)),
            None => None,
        },
    }
}

/// A cursor coordinate brought into a frame that is `extent` pixels long.
pub fn clamp_pixel(c: i64, extent: u32) -> (r: u32)
    requires
        extent > 0,
    ensures
        r == (if c < 0 {
            0
        } else if c >= extent {
            extent - 1
        } else {
            c as int
        }),
{
    if c < 0 {
        0
    } else if c >= extent as i64 {
        extent - 1
    } else {
        c as u32
    }
}

/// The length of a row of `width` four-byte pixels, padded to a multiple of
/// `align`.
pub open spec fn padded(width: int, align: int) -> int {
    (4 * width + align - 1) / align * align
}

/// The length of a row of `width` four-byte pixels, padded to a multiple of
/// `align`.
pub fn padded_row(width: u32, align: u32) -> (r: u32)
    requires
        align > 0,
        4 * width <= u32::MAX,
        padded(width as int, align as int) <= u32::MAX,
    ensures
        r == padded(width as int, align as int),
        r as int % align as int == 0,
        4 * width <= r < 4 * width + align,
{
    let row: u64 = 4 * width as u64;
    let step: u64 = align as u64;
    proof {
        lemma_padded(4 * width as int, align as int);
    }
    let count: u64 = (row + step - 1) / step;
    proof {
        assert(count == (row + step - 1) / step as int);
        assert(count * step == padded(width as int, align as int)) by (nonlinear_arith)
            requires
                count == (4 * width + align - 1) / align as int,
                step == align,
                padded(width as int, align as int) == (4 * width + align - 1) / align as int
                    * align,
        ;
    }
    (count * step) as u32
}

proof fn lemma_padded(row: int, align: int)
    requires
        align > 0,
        row >= 0,
    ensures
        ((row + align - 1) / align * align) % align == 0,
        row <= (row + align - 1) / align * align < row + align,
{
    let q = (row + align - 1) / align;
    vstd::arithmetic::div_mod::lemma_fundamental_div_mod(row + align - 1, align);
    vstd::arithmetic::div_mod::lemma_mod_multiples_basic(q, align);
    vstd::arithmetic::mul::lemma_mul_is_commutative(align, q);
    assert(0 <= (row + align - 1) % align < align) by {
        vstd::arithmetic::div_mod::lemma_mod_bound(row + align - 1, align);
    }
}

/// Where the four bytes of a pixel start in a padded frame.
pub fn pixel_offset(px: u32, py: u32, padded: u32) -> (r: usize)
    requires
        py * padded + px * 4 <= u32::MAX,
    ensures
        r == py * padded + px * 4,
{
    proof {
        assert(0 <= py * padded) by (nonlinear_arith);
        assert(py * padded <= u32::MAX);
    }
    (py * padded + px * 4) as usize
}

/// The rows of a padded frame, without their padding, one after the other.
pub fn unpad(mapped: &[u8], width: u32, height: u32, padded: u32) -> (r: Vec<u8>)
    requires
        4 * width <= padded,
        height * padded <= u32::MAX,
        height * padded <= mapped@.len(),
    ensures
        r@ == rows(mapped@, 4 * width as int, padded as int, height as nat),
{
    let row: usize = (4 * width) as usize;
    let total: usize = mapped.len();
    let mut out: Vec<u8> = Vec::new();
    let mut y: u32 = 0;
    while y < height
        invariant
            y <= height,
            total == mapped@.len(),
            row == 4 * width,
            4 * width <= padded,
            height * padded <= u32::MAX,
            height * padded <= mapped@.len(),
            out@ == rows(mapped@, row as int, padded as int, y as nat),
        decreases height - y,
    {
        proof {
            assert(y * padded + padded <= height * padded) by (nonlinear_arith)
                requires
                    y < height,
            ;
            assert(0 <= y * padded) by (nonlinear_arith);
        }
        let start: usize = (y * padded) as usize;
        let ghost before = out@;
        let mut x: usize = 0;
        while x < row
            invariant
                x <= row,
                total == mapped@.len(),
                start + row <= total,
                out@ == before + mapped@.subrange(start as int, start + x),
            decreases row - x,
        {
            out.push(mapped[start + x]);
            x += 1;
            proof {
                assert(out@ =~= before + mapped@.subrange(start as int, start + x));
            }
        }
        y += 1;
    }
    out
}

/// The first `row` bytes of each of `n` rows that are `padded` bytes apart.
pub open spec fn rows(mapped: Seq<u8>, row: int, padded: int, n: nat) -> Seq<u8>
    decreases n,
{
    if n == 0 {
        seq![]
    } else {
        rows(mapped, row, padded, (n - 1) as nat) + mapped.subrange(
            (n - 1) * padded,
            (n - 1) * padded + row,
        )
    }
}

/// Unpadding keeps every pixel: byte `x` of row `y` stands at `y * row + x`.
pub proof fn law_unpadding_keeps_pixels(
    mapped: Seq<u8>,
    row: int,
    padded: int,
    n: nat,
    y: int,
    x: int,
)
    requires
        0 < row <= padded,
        n * padded <= mapped.len(),
        0 <= y < n,
        0 <= x < row,
    ensures
        rows(mapped, row, padded, n).len() == n * row,
        rows(mapped, row, padded, n)[y * row + x] == mapped[y * padded + x],
    decreases n,
{
    assert((n - 1) * padded + padded == n * padded) by (nonlinear_arith);
    lemma_rows_len(mapped, row, padded, n);
    lemma_rows_len(mapped, row, padded, (n - 1) as nat);
    let before = rows(mapped, row, padded, (n - 1) as nat);
    assert(0 <= (n - 1) * padded) by (nonlinear_arith)
        requires
            n >= 1,
            padded > 0,
    ;
    if y < n - 1 {
        assert((n - 1) * padded <= n * padded);
        law_unpadding_keeps_pixels(mapped, row, padded, (n - 1) as nat, y, x);
        assert(y * row + x < (n - 1) * row) by (nonlinear_arith)
            requires
                y < n - 1,
                x < row,
                row > 0,
        ;
        assert(0 <= y * row) by (nonlinear_arith)
            requires
                0 <= y,
                row > 0,
        ;
    } else {
        assert(y == n - 1);
        let tail = mapped.subrange((n - 1) * padded, (n - 1) * padded + row);
        assert(rows(mapped, row, padded, n)[before.len() + x] == tail[x]);
    }
}

proof fn lemma_rows_len(mapped: Seq<u8>, row: int, padded: int, n: nat)
    requires
        0 < row <= padded,
        n * padded <= mapped.len(),
    ensures
        rows(mapped, row, padded, n).len() == n * row,
    decreases n,
{
    if n > 0 {
        assert((n - 1) * padded + padded == n * padded) by (nonlinear_arith);
        assert(0 <= (n - 1) * padded) by (nonlinear_arith)
            requires
                n >= 1,
                padded > 0,
        ;
        lemma_rows_len(mapped, row, padded, (n - 1) as nat);
        assert((n - 1) * row + row == n * row) by (nonlinear_arith);
    } else {
        assert(0 * row == 0);
    }
}

/// Candidate `i` is the one a search for the nearest settles on: it is nearer
/// than the limit, nearer than every candidate before it, and none after it is
/// nearer.
pub open spec fn nearest_is<T>(limit: Scalar, candidates: Seq<(Scalar, T)>, i: int) -> bool {
    &&& 0 <= i < candidates.len()
    &&& candidates[i].0.less(limit)
    &&& forall|j: int|
        0 <= j < candidates.len() && (#[trigger] candidates[j]).0.less(limit) ==> {
            &&& candidates[i].0.rank() <= candidates[j].0.rank()
            &&& j < i ==> candidates[i].0.rank() < candidates[j].0.rank()
        }
}

/// What a search for the nearest settles on.
pub open spec fn nearest_item<T>(limit: Scalar, candidates: Seq<(Scalar, T)>) -> Option<T> {
    if exists|i: int| nearest_is(limit, candidates, i) {
        Some(candidates[choose|i: int| nearest_is(limit, candidates, i)].1)
    } else {
        None
    }
}

/// The nearest candidate within the limit; the first of several equally near.
/// A distance that is not a number is never near.
pub fn nearest<T: Copy>(limit: Scalar, candidates: &Vec<(Scalar, T)>) -> (r: Option<T>)
    ensures
        r == nearest_item(limit, candidates@),
        r is None <==> forall|i: int|
            0 <= i < candidates@.len() ==> !(#[trigger] candidates@[i]).0.less(limit),
{
    let mut best: Option<usize> = None;
    let mut i: usize = 0;
    while i < candidates.len()
        invariant
            i <= candidates@.len(),
            match best {
                Some(b) => nearest_is(limit, candidates@.take(i as int), b as int),
                None => forall|j: int| 0 <= j < i ==> !(#[trigger] candidates@[j]).0.less(limit),
            },
        decreases candidates@.len() - i,
    {
        let d = candidates[i].0;
        let closer = match best {
            Some(b) => d < candidates[b].0,
            None => d < limit,
        };
        proof {
            let (now, next) = (candidates@.take(i as int), candidates@.take(i + 1));
            assert forall|j: int| 0 <= j < i implies #[trigger] next[j] == now[j] by {}
            assert(next[i as int].0 == d);
            if let Some(b) = best {
                assert(now[b as int] == candidates@[b as int]);
            }
        }
        if closer {
            best = Some(i);
        }
        i += 1;
    }
    proof {
        assert(candidates@.take(i as int) =~= candidates@);
    }
    match best {
        Some(b) => {
            proof {
                assert(nearest_is(limit, candidates@, b as int));
                let c = choose|i: int| nearest_is(limit, candidates@, i);
                assert(c == b) by {
                    assert(candidates@[b as int].0.less(limit) && candidates@[c].0.less(limit));
                }
            }
            Some(candidates[b].1)
        },
        None => None,
    }
}

/// Whether a point lies in a triangle, by the signs of its three cross products:
/// not on both sides at once.
pub fn in_triangle(d1: Scalar, d2: Scalar, d3: Scalar) -> (r: bool)
    ensures
        r == inside(d1, d2, d3),
{
    let zero = Scalar::zero();
    let below = d1 < zero || d2 < zero || d3 < zero;
    let above = zero < d1 || zero < d2 || zero < d3;
    !(below && above)
}

/// The cross products do not lie on both sides of zero.
pub open spec fn inside(d1: Scalar, d2: Scalar, d3: Scalar) -> bool {
    !((negative(d1) || negative(d2) || negative(d3)) && (positive(d1) || positive(d2) || positive(
        d3,
    )))
}

/// Below zero.
pub open spec fn negative(d: Scalar) -> bool {
    d.less(Scalar { bits: 0 })
}

/// Above zero.
pub open spec fn positive(d: Scalar) -> bool {
    (Scalar { bits: 0 }).less(d)
}

/// The nearest is found: what is settled on is one of the candidates, nearer than the
/// limit, and no candidate is nearer, nor as near and listed before it. Nothing is
/// settled on only if nothing is nearer than the limit.
pub proof fn law_the_nearest_is_found<T>(limit: Scalar, candidates: Seq<(Scalar, T)>)
    ensures
        match nearest_item(limit, candidates) {
            Some(item) => exists|i: int|
                {
                    &&& 0 <= i < candidates.len()
                    &&& (#[trigger] candidates[i]).1 == item
                    &&& candidates[i].0.less(limit)
                    &&& forall|j: int|
                        0 <= j < candidates.len() ==> !(#[trigger] candidates[j]).0.less(
                            candidates[i].0,
                        )
                    &&& forall|j: int|
                        0 <= j < i ==> !(#[trigger] candidates[j]).0.equals(candidates[i].0)
                },
            None => forall|j: int|
                0 <= j < candidates.len() ==> !(#[trigger] candidates[j]).0.less(limit),
        },
{
    match nearest_item(limit, candidates) {
        Some(item) => {
            let i = choose|i: int| nearest_is(limit, candidates, i);
            assert(candidates[i].1 == item);
            assert forall|j: int| 0 <= j < candidates.len() implies !(
            #[trigger] candidates[j]).0.less(candidates[i].0) by {}
            assert forall|j: int| 0 <= j < i implies !(#[trigger] candidates[j]).0.equals(
                candidates[i].0,
            ) by {
                if candidates[j].0.equals(candidates[i].0) {
                    assert(candidates[j].0.less(limit));
                }
            }
        },
        None => {
            if exists|j: int| 0 <= j < candidates.len() && (#[trigger] candidates[j]).0.less(limit) {
                let j = choose|j: int|
                    0 <= j < candidates.len() && (#[trigger] candidates[j]).0.less(limit);
                let best = lemma_some_is_nearest(limit, candidates, candidates.len(), j);
                assert(candidates.take(candidates.len() as int) =~= candidates);
                assert(nearest_is(limit, candidates, best));
            }
        },
    }
}

/// If one of the first `n` candidates is within the limit, one of them is the nearest.
proof fn lemma_some_is_nearest<T>(
    limit: Scalar,
    candidates: Seq<(Scalar, T)>,
    n: nat,
    j: int,
) -> (best: int)
    requires
        n <= candidates.len(),
        0 <= j < n,
        candidates[j].0.less(limit),
    ensures
        0 <= best < n,
        nearest_is(limit, candidates.take(n as int), best),
    decreases n,
{
    let all = candidates.take(n as int);
    let last = n - 1;
    if exists|k: int| 0 <= k < last && (#[trigger] candidates[k]).0.less(limit) {
        let k = choose|k: int| 0 <= k < last && (#[trigger] candidates[k]).0.less(limit);
        let before = lemma_some_is_nearest(limit, candidates, last as nat, k);
        let short = candidates.take(last);
        assert forall|i: int| 0 <= i < last implies #[trigger] all[i] == short[i] by {}
        if candidates[last].0.less(candidates[before].0) {
            assert forall|i: int| 0 <= i < n && (#[trigger] all[i]).0.less(limit) implies {
                &&& all[last].0.rank() <= all[i].0.rank()
                &&& i < last ==> all[last].0.rank() < all[i].0.rank()
            } by {
                if i < last {
                    assert(short[i].0.less(limit));
                }
            }
            last
        } else {
            assert forall|i: int| 0 <= i < n && (#[trigger] all[i]).0.less(limit) implies {
                &&& all[before].0.rank() <= all[i].0.rank()
                &&& i < before ==> all[before].0.rank() < all[i].0.rank()
            } by {
                if i < last {
                    assert(short[i].0.less(limit));
                }
            }
            before
        }
    } else {
        assert(j == last);
        assert forall|i: int| 0 <= i < n && (#[trigger] all[i]).0.less(limit) implies i == last by {
            if i < last {
                assert(candidates[i].0.less(limit));
            }
        }
        last
    }
}

/// A point lies in a triangle unless it is on one side of one edge and on the other of
/// another: whichever way round the triangle is drawn, and whichever edge comes first.
pub proof fn law_inside_is_on_one_side(d1: Scalar, d2: Scalar, d3: Scalar)
    ensures
        inside(d1, d2, d3) == inside(d2, d3, d1),
        inside(d1, d2, d3) == inside(d1.flipped(), d2.flipped(), d3.flipped()),
        !d1.nan() && !d2.nan() && !d3.nan() && d1.rank() >= 0 && d2.rank() >= 0 && d3.rank() >= 0
            ==> inside(d1, d2, d3),
        !d1.nan() && !d2.nan() && d1.rank() < 0 && d2.rank() > 0 ==> !inside(d1, d2, d3),
{
}

/// The edges highlighted are the selected ones, in order, as many as fit, and the face
/// is the one selected first.
pub proof fn law_what_is_highlighted(selected: Seq<Pick>, i: int)
    requires
        0 <= i < selected.len(),
    ensures
        ({
            let all = edge_ids(selected);
            &&& selected[i] matches Pick::Edge(id) ==> all.contains(id)
            &&& all.len() <= selected.len()
            &&& (forall|j: int| 0 <= j < selected.len() ==> (#[trigger] selected[j]) is Edge)
                ==> all.len() == selected.len() && Pick::Edge(all[i]) == selected[i]
            &&& shown_edges(selected).is_prefix_of(all)
            &&& shown_edges(selected).len() == (if all.len() < SEL_EDGE_CAP {
                all.len()
            } else {
                SEL_EDGE_CAP as nat
            })
        }),
        ({
            let first = first_face(selected);
            &&& selected[i] is Face ==> first is Some
            &&& (selected[i] is Face && forall|j: int|
                0 <= j < i ==> (#[trigger] selected[j]) is Edge) ==> first == Some(
                selected[i]->Face_0,
            )
        }),
    decreases selected.len(),
{
    let front = selected.drop_last();
    let n = selected.len() - 1;
    if i < n {
        law_what_is_highlighted(front, i);
        if let Pick::Edge(id) = selected[i] {
            let before = edge_ids(front);
            let k = before.index_of(id);
            assert(edge_ids(selected)[k] == id);
        }
        if forall|j: int| 0 <= j < selected.len() ==> (#[trigger] selected[j]) is Edge {
            assert forall|j: int| 0 <= j < front.len() implies (#[trigger] front[j]) is Edge by {
                assert(selected[j] is Edge);
            }
            assert(selected[n] is Edge);
        }
        if selected[i] is Face && forall|j: int| 0 <= j < i ==> (#[trigger] selected[j]) is Edge {
            assert forall|j: int| 0 <= j < i implies (#[trigger] front[j]) is Edge by {
                assert(selected[j] is Edge);
            }
        }
    } else {
        lemma_edge_ids(front);
        if let Pick::Edge(id) = selected[i] {
            assert(edge_ids(selected)[edge_ids(front).len() as int] == id);
        }
        if forall|j: int| 0 <= j < selected.len() ==> (#[trigger] selected[j]) is Edge {
            assert forall|j: int| 0 <= j < front.len() implies (#[trigger] front[j]) is Edge by {
                assert(selected[j] is Edge);
            }
        }
        if selected[i] is Face && forall|j: int| 0 <= j < i ==> (#[trigger] selected[j]) is Edge {
            assert forall|j: int| 0 <= j < front.len() implies (#[trigger] front[j]) is Edge by {
                assert(selected[j] is Edge);
            }
        }
    }
}

proof fn lemma_edge_ids(selected: Seq<Pick>)
    ensures
        edge_ids(selected).len() <= selected.len(),
        (forall|j: int| 0 <= j < selected.len() ==> (#[trigger] selected[j]) is Edge) ==> edge_ids(
            selected,
        ).len() == selected.len() && first_face(selected) is None,
    decreases selected.len(),
{
    if selected.len() > 0 {
        let front = selected.drop_last();
        lemma_edge_ids(front);
        if forall|j: int| 0 <= j < selected.len() ==> (#[trigger] selected[j]) is Edge {
            assert forall|j: int| 0 <= j < front.len() implies (#[trigger] front[j]) is Edge by {
                assert(selected[j] is Edge);
            }
            assert(selected[selected.len() - 1] is Edge);
        }
    }
}

} // verus!
