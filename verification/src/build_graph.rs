//! The history laid out as a graph of lanes.
//!
//! Features are rows, in history order, each on a lane. A body flows down its
//! lane until its last consumer. A feature that consumes two or more bodies is a
//! merge, where lanes come together; a body that feeds two or more features keeps
//! its lane, and each of them branches off onto another.

use crate::features::{Feature, FeatureId, FeatureModel};
use crate::history::History;
use std::collections::HashMap;
use vstd::prelude::*;

verus! {

broadcast use vstd::std_specs::hash::group_hash_axioms;

/// One feature's place in the graph.
#[derive(Debug)]
pub struct BuildGraphRow {
    pub id: FeatureId,
    /// The lane the feature's node sits on.
    pub lane: usize,
    /// The lanes its inputs come down on.
    pub input_lanes: Vec<usize>,
    /// The lanes occupied above this row: the previous row's `open`.
    pub top_open: Vec<usize>,
    /// The lanes occupied below this row.
    pub open: Vec<usize>,
    /// Whether two or more inputs meet here.
    pub is_merge: bool,
}

/// What a [`BuildGraphRow`] holds.
#[verifier::ext_equal]
pub struct RowModel {
    pub id: FeatureId,
    pub lane: usize,
    pub input_lanes: Seq<usize>,
    pub top_open: Seq<usize>,
    pub open: Seq<usize>,
    pub is_merge: bool,
}

impl View for BuildGraphRow {
    type V = RowModel;

    open spec fn view(&self) -> RowModel {
        RowModel {
            id: self.id,
            lane: self.lane,
            input_lanes: self.input_lanes@,
            top_open: self.top_open@,
            open: self.open@,
            is_merge: self.is_merge,
        }
    }
}

/// The whole graph.
#[derive(Debug)]
pub struct BuildGraph {
    pub rows: Vec<BuildGraphRow>,
    /// How many lanes are needed.
    pub lane_count: usize,
}

/// What a list of rows holds.
pub open spec fn row_models(rows: Seq<BuildGraphRow>) -> Seq<RowModel> {
    Seq::new(rows.len(), |i: int| rows[i]@)
}

/// What a [`BuildGraph`] holds.
#[verifier::ext_equal]
pub struct GraphModel {
    pub rows: Seq<RowModel>,
    pub lane_count: nat,
}

impl View for BuildGraph {
    type V = GraphModel;

    open spec fn view(&self) -> GraphModel {
        GraphModel { rows: row_models(self.rows@), lane_count: self.lane_count as nat }
    }
}

/// How often `id` occurs among the first `n` inputs.
pub open spec fn occurrences(inputs: Seq<FeatureId>, n: nat, id: FeatureId) -> nat
    decreases n,
{
    if n == 0 {
        0
    } else {
        occurrences(inputs, (n - 1) as nat, id) + (if inputs[n - 1] == id {
            1nat
        } else {
            0
        })
    }
}

/// How often the first `n` features consume `id`.
pub open spec fn uses(features: Seq<FeatureModel>, n: nat, id: FeatureId) -> nat
    decreases n,
{
    if n == 0 {
        0
    } else {
        uses(features, (n - 1) as nat, id) + occurrences(
            features[n - 1].kind.inputs(),
            features[n - 1].kind.inputs().len(),
            id,
        )
    }
}

/// Whether exactly one reference in the whole history consumes `id`.
pub open spec fn used_once(features: Seq<FeatureModel>, id: FeatureId) -> bool {
    uses(features, features.len(), id) == 1
}

/// Whether a feature after the one at `k` consumes `id`.
pub open spec fn used_after(features: Seq<FeatureModel>, k: int, id: FeatureId) -> bool {
    uses(features, features.len(), id) > uses(features, (k + 1) as nat, id)
}

/// The first lane, from `from` on, that carries `id`.
pub open spec fn lane_of(lanes: Seq<Option<FeatureId>>, id: FeatureId, from: int) -> Option<usize>
    decreases lanes.len() - from,
{
    if from < 0 || from >= lanes.len() {
        None
    } else if lanes[from] == Some(id) {
        Some(from as usize)
    } else {
        lane_of(lanes, id, from + 1)
    }
}

/// The first empty lane from `from` on, or a new one behind the others.
pub open spec fn free_lane(lanes: Seq<Option<FeatureId>>, from: int) -> usize
    decreases lanes.len() - from,
{
    if from < 0 || from >= lanes.len() {
        lanes.len() as usize
    } else if lanes[from] is None {
        from as usize
    } else {
        free_lane(lanes, from + 1)
    }
}

/// The lanes the first `n` inputs come down on, in order; an input that is on no
/// lane has none.
pub open spec fn lanes_of(lanes: Seq<Option<FeatureId>>, inputs: Seq<FeatureId>, n: nat) -> Seq<
    usize,
>
    decreases n,
{
    if n == 0 {
        seq![]
    } else {
        let before = lanes_of(lanes, inputs, (n - 1) as nat);
        match lane_of(lanes, inputs[n - 1], 0) {
            Some(l) => before.push(l),
            None => before,
        }
    }
}

/// The occupied lanes among the first `n`.
pub open spec fn occupied(lanes: Seq<Option<FeatureId>>, n: nat) -> Seq<usize>
    decreases n,
{
    if n == 0 {
        seq![]
    } else {
        let before = occupied(lanes, (n - 1) as nat);
        if lanes[n - 1] is Some {
            before.push((n - 1) as usize)
        } else {
            before
        }
    }
}

/// The lanes without the empty ones at the end.
pub open spec fn trimmed(lanes: Seq<Option<FeatureId>>) -> Seq<Option<FeatureId>>
    decreases lanes.len(),
{
    if lanes.len() > 0 && lanes.last() is None {
        trimmed(lanes.drop_last())
    } else {
        lanes
    }
}

/// How far the layout has come: what flows down each lane, the rows so far, and
/// the lanes needed so far.
#[verifier::ext_equal]
pub struct Layout {
    pub lanes: Seq<Option<FeatureId>>,
    pub rows: Seq<RowModel>,
    pub lane_count: nat,
}

/// The lane for the feature at `k`: its main input's lane if no other reference
/// consumes that input, otherwise an empty one.
pub open spec fn node_lane(lanes: Seq<Option<FeatureId>>, features: Seq<FeatureModel>, k: int) -> usize {
    match features[k].kind.primary_input() {
        Some(p) => match lane_of(lanes, p, 0) {
            Some(l) => if used_once(features, p) {
                l
            } else {
                free_lane(lanes, 0)
            },
            None => free_lane(lanes, 0),
        },
        None => free_lane(lanes, 0),
    }
}

/// The lanes with room for lane `node`.
pub open spec fn with_lane(lanes: Seq<Option<FeatureId>>, node: usize) -> Seq<Option<FeatureId>> {
    if node < lanes.len() {
        lanes
    } else {
        lanes.push(None)
    }
}

/// The lanes while the feature at `k` sits on lane `node`: input lanes whose body
/// has no consumer left are free.
pub open spec fn lanes_at(
    lanes: Seq<Option<FeatureId>>,
    features: Seq<FeatureModel>,
    k: int,
    node: usize,
    input_lanes: Seq<usize>,
) -> Seq<Option<FeatureId>> {
    let wide = with_lane(lanes, node);
    Seq::new(
        wide.len(),
        |i: int|
            if i == node {
                Some(features[k].id)
            } else if wide[i] is Some && input_lanes.contains(i as usize) && !used_after(
                features,
                k,
                wide[i]->Some_0,
            ) {
                None
            } else {
                wide[i]
            },
    )
}

impl Layout {
    /// The layout with the row of the feature at `k`.
    pub open spec fn after(self, features: Seq<FeatureModel>, k: int) -> Layout {
        let f = features[k];
        let inputs = f.kind.inputs();
        let input_lanes = lanes_of(self.lanes, inputs, inputs.len());
        let node = node_lane(self.lanes, features, k);
        let lanes = lanes_at(self.lanes, features, k, node, input_lanes);
        let row = RowModel {
            id: f.id,
            lane: node,
            input_lanes,
            top_open: if self.rows.len() > 0 {
                self.rows.last().open
            } else {
                seq![]
            },
            open: occupied(lanes, lanes.len()),
            is_merge: inputs.len() >= 2,
        };
        Layout {
            lanes: trimmed(
                if used_after(features, k, f.id) {
                    lanes
                } else {
                    lanes.update(node as int, None)
                },
            ),
            rows: self.rows.push(row),
            lane_count: if self.lane_count >= lanes.len() {
                self.lane_count
            } else {
                lanes.len()
            },
        }
    }
}

/// The layout of the first `n` features.
pub open spec fn layout(features: Seq<FeatureModel>, n: nat) -> Layout
    decreases n,
{
    if n == 0 {
        Layout { lanes: seq![], rows: seq![], lane_count: 0 }
    } else {
        layout(features, (n - 1) as nat).after(features, n - 1)
    }
}

/// The graph of a history.
pub open spec fn graph(features: Seq<FeatureModel>) -> GraphModel {
    let done = layout(features, features.len());
    GraphModel { rows: done.rows, lane_count: done.lane_count }
}

/// Whether more than one reference consumes a body, and the last feature that
/// does.
#[derive(Clone, Copy)]
struct Uses {
    many: bool,
    last: usize,
}

/// The map says, for the first `n` features and the first `j` inputs of the next
/// one, what is consumed, whether more than once, and where last.
spec fn counted(
    map: Map<u64, Uses>,
    features: Seq<FeatureModel>,
    n: int,
    j: nat,
    id: FeatureId,
) -> bool {
    let part = if j == 0 {
        0nat
    } else {
        occurrences(features[n].kind.inputs(), j, id)
    };
    let total = uses(features, n as nat, id) + part;
    if map.contains_key(id.0) {
        let u = map[id.0];
        &&& total > 0
        &&& u.many == (total > 1)
        &&& if part > 0 {
            u.last == n
        } else {
            &&& u.last < n
            &&& uses(features, u.last as nat, id) < uses(features, n as nat, id)
            &&& uses(features, (u.last + 1) as nat, id) == uses(features, n as nat, id)
        }
    } else {
        total == 0
    }
}

pub proof fn lemma_uses_grow(features: Seq<FeatureModel>, a: nat, b: nat, id: FeatureId)
    requires
        a <= b,
    ensures
        uses(features, a, id) <= uses(features, b, id),
    decreases b,
{
    if a < b {
        lemma_uses_grow(features, a, (b - 1) as nat, id);
    }
}

fn count_uses(features: &[Feature]) -> (r: HashMap<u64, Uses>)
    ensures
        forall|id: FeatureId| #[trigger]
            r@.contains_key(id.0) ==> ({
                let all = crate::history::models(features@);
                &&& r@[id.0].many == !used_once(all, id)
                &&& forall|k: int|
                    0 <= k < all.len() ==> #[trigger] used_after(all, k, id) == (r@[id.0].last > k)
            }),
        forall|id: FeatureId| #[trigger]
            r@.contains_key(id.0) || uses(
                crate::history::models(features@),
                features@.len(),
                id,
            ) == 0,
{
    let mut map: HashMap<u64, Uses> = HashMap::new();
    let ghost all = crate::history::models(features@);
    let mut i: usize = 0;
    while i < features.len()
        invariant
            i <= features@.len(),
            all == crate::history::models(features@),
            forall|id: FeatureId| #[trigger] counted(map@, all, i as int, 0, id),
        decreases features@.len() - i,
    {
        let inputs = features[i].kind.inputs();
        assert(all[i as int] == features@[i as int]@);
        let mut j: usize = 0;
        while j < inputs.len()
            invariant
                i < features@.len(),
                all == crate::history::models(features@),
                inputs@ == all[i as int].kind.inputs(),
                j <= inputs@.len(),
                forall|id: FeatureId| #[trigger] counted(map@, all, i as int, j as nat, id),
            decreases inputs@.len() - j,
        {
            let input = inputs[j];
            let ghost before = map@;
            assert(counted(before, all, i as int, j as nat, input));
            match map.get(&input.0) {
                Some(_) => {
                    map.insert(input.0, Uses { many: true, last: i });
                },
                None => {
                    map.insert(input.0, Uses { many: false, last: i });
                },
            }
            proof {
                assert forall|id: FeatureId| #[trigger]
                    counted(map@, all, i as int, (j + 1) as nat, id) by {
                    assert(counted(before, all, i as int, j as nat, id));
                    assert(id.0 == input.0 ==> id == input);
                    reveal_with_fuel(occurrences, 2);
                }
            }
            j += 1;
        }
        proof {
            assert forall|id: FeatureId| #[trigger] counted(map@, all, i + 1, 0, id) by {
                assert(counted(map@, all, i as int, inputs@.len(), id));
            }
        }
        i += 1;
    }
    proof {
        assert forall|id: FeatureId| #[trigger] map@.contains_key(id.0) implies ({
            &&& map@[id.0].many == !used_once(all, id)
            &&& forall|k: int|
                0 <= k < all.len() ==> #[trigger] used_after(all, k, id) == (map@[id.0].last > k)
        }) by {
            assert(counted(map@, all, i as int, 0, id));
            assert forall|k: int| 0 <= k < all.len() implies #[trigger] used_after(all, k, id) == (
            map@[id.0].last > k) by {
                let last = map@[id.0].last as int;
                if last > k {
                    lemma_uses_grow(all, (k + 1) as nat, last as nat, id);
                } else {
                    lemma_uses_grow(all, (last + 1) as nat, (k + 1) as nat, id);
                    lemma_uses_grow(all, (k + 1) as nat, all.len(), id);
                }
            }
        }
        assert forall|id: FeatureId| #[trigger] map@.contains_key(id.0) || uses(
            all,
            features@.len(),
            id,
        ) == 0 by {
            assert(counted(map@, all, i as int, 0, id));
        }
    }
    map
}

fn is_used_once(map: &HashMap<u64, Uses>, id: FeatureId) -> (r: bool)
    ensures
        r == (map@.contains_key(id.0) && !map@[id.0].many),
{
    match map.get(&id.0) {
        Some(u) => !u.many,
        None => false,
    }
}

fn is_used_after(map: &HashMap<u64, Uses>, k: usize, id: FeatureId) -> (r: bool)
    ensures
        r == (map@.contains_key(id.0) && map@[id.0].last > k),
{
    match map.get(&id.0) {
        Some(u) => u.last > k,
        None => false,
    }
}

/// What the counts say of a body.
proof fn lemma_counts(map: Map<u64, Uses>, all: Seq<FeatureModel>, id: FeatureId, k: int)
    requires
        0 <= k < all.len(),
        forall|id: FeatureId| #[trigger]
            map.contains_key(id.0) ==> ({
                &&& map[id.0].many == !used_once(all, id)
                &&& forall|k: int|
                    0 <= k < all.len() ==> #[trigger] used_after(all, k, id) == (map[id.0].last > k)
            }),
        forall|id: FeatureId| #[trigger]
            map.contains_key(id.0) || uses(all, all.len(), id) == 0,
    ensures
        used_once(all, id) == (map.contains_key(id.0) && !map[id.0].many),
        used_after(all, k, id) == (map.contains_key(id.0) && map[id.0].last > k),
{
    assert(map.contains_key(id.0) || uses(all, all.len(), id) == 0);
    if map.contains_key(id.0) {
        assert(used_after(all, k, id) == (map[id.0].last > k));
    }
}

fn find_lane(lanes: &Vec<Option<FeatureId>>, id: FeatureId) -> (r: Option<usize>)
    ensures
        r == lane_of(lanes@, id, 0),
{
    let mut i: usize = 0;
    while i < lanes.len()
        invariant
            i <= lanes@.len(),
            lane_of(lanes@, id, 0) == lane_of(lanes@, id, i as int),
        decreases lanes@.len() - i,
    {
        match lanes[i] {
            Some(x) => {
                if x == id {
                    return Some(i);
                }
            },
            None => {},
        }
        i += 1;
    }
    None
}

fn find_free(lanes: &Vec<Option<FeatureId>>) -> (r: usize)
    ensures
        r == free_lane(lanes@, 0),
        r <= lanes@.len(),
{
    let mut i: usize = 0;
    while i < lanes.len()
        invariant
            i <= lanes@.len(),
            free_lane(lanes@, 0) == free_lane(lanes@, i as int),
        decreases lanes@.len() - i,
    {
        if lanes[i].is_none() {
            return i;
        }
        i += 1;
    }
    i
}

fn find_lanes(lanes: &Vec<Option<FeatureId>>, inputs: &Vec<FeatureId>) -> (r: Vec<usize>)
    ensures
        r@ == lanes_of(lanes@, inputs@, inputs@.len()),
{
    let mut out: Vec<usize> = Vec::new();
    let mut i: usize = 0;
    while i < inputs.len()
        invariant
            i <= inputs@.len(),
            out@ == lanes_of(lanes@, inputs@, i as nat),
        decreases inputs@.len() - i,
    {
        match find_lane(lanes, inputs[i]) {
            Some(l) => out.push(l),
            None => {},
        }
        i += 1;
    }
    out
}

fn list_occupied(lanes: &Vec<Option<FeatureId>>) -> (r: Vec<usize>)
    ensures
        r@ == occupied(lanes@, lanes@.len()),
{
    let mut out: Vec<usize> = Vec::new();
    let mut i: usize = 0;
    while i < lanes.len()
        invariant
            i <= lanes@.len(),
            out@ == occupied(lanes@, i as nat),
        decreases lanes@.len() - i,
    {
        if lanes[i].is_some() {
            out.push(i);
        }
        i += 1;
    }
    out
}

pub proof fn lemma_lane_of(lanes: Seq<Option<FeatureId>>, id: FeatureId, from: int)
    requires
        0 <= from,
        lanes.len() <= usize::MAX,
    ensures
        match lane_of(lanes, id, from) {
            Some(l) => from <= l < lanes.len() && lanes[l as int] == Some(id) && forall|i: int|
                from <= i < l ==> #[trigger] lanes[i] != Some(id),
            None => forall|i: int| from <= i < lanes.len() ==> #[trigger] lanes[i] != Some(id),
        },
    decreases lanes.len() - from,
{
    if from < lanes.len() && lanes[from] != Some(id) {
        lemma_lane_of(lanes, id, from + 1);
    }
}

pub proof fn lemma_free_lane(lanes: Seq<Option<FeatureId>>, from: int)
    requires
        0 <= from <= lanes.len() <= usize::MAX,
    ensures
        from <= free_lane(lanes, from) <= lanes.len(),
        free_lane(lanes, from) < lanes.len() ==> lanes[free_lane(lanes, from) as int] is None,
    decreases lanes.len() - from,
{
    if from < lanes.len() && lanes[from] is Some {
        lemma_free_lane(lanes, from + 1);
    }
}

proof fn lemma_lanes_of(lanes: Seq<Option<FeatureId>>, inputs: Seq<FeatureId>, n: nat)
    requires
        n <= inputs.len(),
        lanes.len() <= usize::MAX,
    ensures
        forall|q: int|
            0 <= q < lanes_of(lanes, inputs, n).len() ==> (#[trigger] lanes_of(
                lanes,
                inputs,
                n,
            )[q]) < lanes.len() && lanes[lanes_of(lanes, inputs, n)[q] as int] is Some,
    decreases n,
{
    if n > 0 {
        lemma_lanes_of(lanes, inputs, (n - 1) as nat);
        lemma_lane_of(lanes, inputs[n - 1], 0);
    }
}

/// There are never more lanes than features.
pub proof fn lemma_layout_size(features: Seq<FeatureModel>, n: nat)
    requires
        n <= features.len() <= usize::MAX,
    ensures
        layout(features, n).lanes.len() <= n,
        layout(features, n).rows.len() == n,
        layout(features, n).lane_count <= n,
    decreases n,
{
    if n > 0 {
        lemma_layout_size(features, (n - 1) as nat);
        let before = layout(features, (n - 1) as nat);
        let k = n - 1;
        lemma_node_lane(before.lanes, features, k);
        let inputs = features[k].kind.inputs();
        let node = node_lane(before.lanes, features, k);
        let lanes = lanes_at(
            before.lanes,
            features,
            k,
            node,
            lanes_of(before.lanes, inputs, inputs.len()),
        );
        lemma_trimmed(lanes);
        lemma_trimmed(lanes.update(node as int, None));
    }
}

pub proof fn lemma_node_lane(lanes: Seq<Option<FeatureId>>, features: Seq<FeatureModel>, k: int)
    requires
        lanes.len() <= usize::MAX,
    ensures
        node_lane(lanes, features, k) <= lanes.len(),
{
    lemma_free_lane(lanes, 0);
    match features[k].kind.primary_input() {
        Some(p) => lemma_lane_of(lanes, p, 0),
        None => {},
    }
}

pub proof fn lemma_trimmed(lanes: Seq<Option<FeatureId>>)
    ensures
        trimmed(lanes).len() <= lanes.len(),
        forall|i: int| 0 <= i < trimmed(lanes).len() ==> #[trigger] trimmed(lanes)[i] == lanes[i],
        forall|i: int| trimmed(lanes).len() <= i < lanes.len() ==> #[trigger] lanes[i] is None,
    decreases lanes.len(),
{
    if lanes.len() > 0 && lanes.last() is None {
        lemma_trimmed(lanes.drop_last());
        assert forall|i: int| 0 <= i < trimmed(lanes).len() implies #[trigger] trimmed(lanes)[i]
            == lanes[i] by {
            assert(trimmed(lanes.drop_last())[i] == lanes.drop_last()[i]);
        }
        assert forall|i: int| trimmed(lanes).len() <= i < lanes.len() implies #[trigger] lanes[i] is None by {
            if i < lanes.len() - 1 {
                assert(lanes.drop_last()[i] is None);
            }
        }
    }
}

/// Free the input lanes whose body has no consumer left, except lane `node`.
fn free_consumed(
    lanes: &mut Vec<Option<FeatureId>>,
    input_lanes: &Vec<usize>,
    node: usize,
    uses: &HashMap<u64, Uses>,
    k: usize,
)
    requires
        forall|q: int| 0 <= q < input_lanes@.len() ==> (#[trigger] input_lanes@[q]) < old(lanes)@.len(),
    ensures
        final(lanes)@ == Seq::new(
            old(lanes)@.len(),
            |i: int|
                if i != node && old(lanes)@[i] is Some && input_lanes@.contains(i as usize) && !(
                uses@.contains_key(old(lanes)@[i]->Some_0.0) && uses@[old(lanes)@[i]->Some_0.0].last
                    > k) {
                    None
                } else {
                    old(lanes)@[i]
                },
        ),
{
    let ghost before = lanes@;
    let n: usize = lanes.len();
    let mut q: usize = 0;
    while q < input_lanes.len()
        invariant
            q <= input_lanes@.len(),
            before == old(lanes)@,
            before.len() == n,
            lanes@.len() == before.len(),
            forall|q: int| 0 <= q < input_lanes@.len() ==> (#[trigger] input_lanes@[q]) < before.len(),
            forall|i: int|
                0 <= i < before.len() ==> #[trigger] lanes@[i] == (if i != node && before[i] is Some
                    && input_lanes@.take(q as int).contains(i as usize) && !(uses@.contains_key(
                    before[i]->Some_0.0,
                ) && uses@[before[i]->Some_0.0].last > k) {
                    None
                } else {
                    before[i]
                }),
        decreases input_lanes@.len() - q,
    {
        let l: usize = input_lanes[q];
        proof {
            let (now, next) = (input_lanes@.take(q as int), input_lanes@.take(q + 1));
            assert(next =~= now.push(l));
            assert forall|x: usize| next.contains(x) == (now.contains(x) || x == l) by {
                if now.contains(x) {
                    let j = now.index_of(x);
                    assert(next[j] == x);
                }
                assert(next[q as int] == l);
                if next.contains(x) && x != l {
                    let j = next.index_of(x);
                    assert(now[j] == x);
                }
            }
        }
        if l != node {
            match lanes[l] {
                Some(id) => {
                    if !is_used_after(uses, k, id) {
                        lanes.set(l, None);
                    }
                },
                None => {},
            }
        }
        q += 1;
    }
    proof {
        assert(input_lanes@.take(q as int) =~= input_lanes@);
    }
}

fn trim(lanes: &mut Vec<Option<FeatureId>>)
    ensures
        final(lanes)@ == trimmed(old(lanes)@),
{
    while lanes.len() > 0 && lanes[lanes.len() - 1].is_none()
        invariant
            trimmed(lanes@) == trimmed(old(lanes)@),
        decreases lanes@.len(),
    {
        lanes.pop();
    }
}

impl History {
    /// Lay the history out into lanes.
    pub fn build_graph(&self) -> (r: BuildGraph)
        ensures
            r@ == graph(self@.features),
    {
        let features = self.features();
        let ghost all = self@.features;
        let uses = count_uses(features);
        let mut lanes: Vec<Option<FeatureId>> = Vec::new();
        let mut rows: Vec<BuildGraphRow> = Vec::new();
        let mut lane_count: usize = 0;
        let mut prev_open: Vec<usize> = Vec::new();
        let mut k: usize = 0;
        proof {
            assert(row_models(rows@) =~= seq![]);
        }
        while k < features.len()
            invariant
                all == crate::history::models(features@),
                k <= features@.len(),
                forall|id: FeatureId| #[trigger]
                    uses@.contains_key(id.0) ==> ({
                        &&& uses@[id.0].many == !used_once(all, id)
                        &&& forall|k: int|
                            0 <= k < all.len() ==> #[trigger] used_after(all, k, id) == (
                            uses@[id.0].last > k)
                    }),
                forall|id: FeatureId| #[trigger]
                    uses@.contains_key(id.0) || self::uses(all, all.len(), id) == 0,
                ({
                    let done = layout(all, k as nat);
                    &&& lanes@ == done.lanes
                    &&& row_models(rows@) == done.rows
                    &&& lane_count == done.lane_count
                    &&& prev_open@ == (if done.rows.len() > 0 {
                        done.rows.last().open
                    } else {
                        seq![]
                    })
                }),
            decreases features@.len() - k,
        {
            let f = &features[k];
            let ghost done = layout(all, k as nat);
            let inputs = f.kind.inputs();
            proof {
                assert(all[k as int] == f@);
                lemma_layout_size(all, k as nat);
                lemma_node_lane(done.lanes, all, k as int);
                lemma_lanes_of(done.lanes, inputs@, inputs@.len());
                assert forall|id: FeatureId| true implies #[trigger] used_once(all, id) == (
                uses@.contains_key(id.0) && !uses@[id.0].many) && used_after(all, k as int, id) == (
                uses@.contains_key(id.0) && uses@[id.0].last > k) by {
                    lemma_counts(uses@, all, id, k as int);
                }
            }
            let is_merge = inputs.len() >= 2;
            let input_lanes = find_lanes(&lanes, &inputs);
            let main_lane = match f.kind.primary_input() {
                Some(p) => {
                    if is_used_once(&uses, p) {
                        find_lane(&lanes, p)
                    } else {
                        None
                    }
                },
                None => None,
            };
            let node: usize = match main_lane {
                Some(l) => l,
                None => find_free(&lanes),
            };
            assert(node == node_lane(done.lanes, all, k as int));
            if node == lanes.len() {
                lanes.push(None);
            }
            assert(lanes@ == with_lane(done.lanes, node));
            free_consumed(&mut lanes, &input_lanes, node, &uses, k);
            lanes.set(node, Some(f.id));
            proof {
                let target = lanes_at(done.lanes, all, k as int, node, input_lanes@);
                assert forall|i: int| 0 <= i < lanes@.len() implies #[trigger] lanes@[i]
                    == target[i] by {
                    let wide = with_lane(done.lanes, node);
                    if wide[i] is Some {
                        lemma_counts(uses@, all, wide[i]->Some_0, k as int);
                    }
                }
                assert(lanes@ =~= target);
            }
            let open = list_occupied(&lanes);
            if lane_count < lanes.len() {
                lane_count = lanes.len();
            }
            let below = crate::sketch2d::copied(&open);
            let ghost rows_before = rows@;
            let row = BuildGraphRow {
                id: f.id,
                lane: node,
                input_lanes,
                top_open: prev_open,
                open,
                is_merge,
            };
            rows.push(row);
            proof {
                assert(row_models(rows@) =~= row_models(rows_before).push(row@));
                lemma_counts(uses@, all, f.id, k as int);
            }
            prev_open = below;
            if !is_used_after(&uses, k, f.id) {
                lanes.set(node, None);
            }
            trim(&mut lanes);
            k += 1;
        }
        BuildGraph { rows, lane_count }
    }
}

} // verus!
