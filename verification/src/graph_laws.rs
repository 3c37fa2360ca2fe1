//! What holds of every build graph.

use crate::build_graph::Layout;
use crate::features::{FeatureId, FeatureModel};
use vstd::prelude::*;

verus! {

/// The graph has one row per feature, in history order. A row's lane is one of
/// the graph's lanes and open below it, a row is open above where the row before
/// it was open below, and a row is a merge exactly when its feature consumes two
/// or more bodies.
pub proof fn law_rows_follow_the_history(features: Seq<FeatureModel>, i: int)
    requires
        features.len() <= usize::MAX,
        0 <= i < features.len(),
    ensures
        ({
            let g = crate::build_graph::graph(features);
            &&& g.rows.len() == features.len()
            &&& g.lane_count <= features.len()
            &&& g.rows[i].id == features[i].id
            &&& g.rows[i].lane < g.lane_count
            &&& g.rows[i].open.contains(g.rows[i].lane)
            &&& g.rows[i].is_merge == (features[i].kind.inputs().len() >= 2)
            &&& g.rows[i].top_open == (if i == 0 {
                Seq::<usize>::empty()
            } else {
                g.rows[i - 1].open
            })
        }),
{
    let n = features.len();
    crate::build_graph::lemma_layout_size(features, n);
    lemma_row_is_final(features, i, n);
    crate::build_graph::lemma_layout_size(features, i as nat);
    let before = crate::build_graph::layout(features, i as nat);
    let now = crate::build_graph::layout(features, (i + 1) as nat);
    if i > 0 {
        lemma_row_is_final(features, i - 1, n);
        lemma_row_is_final(features, i - 1, i as nat);
    }
    crate::build_graph::lemma_node_lane(before.lanes, features, i);
    let inputs = features[i].kind.inputs();
    let node = crate::build_graph::node_lane(before.lanes, features, i);
    let lanes = crate::build_graph::lanes_at(
        before.lanes,
        features,
        i,
        node,
        crate::build_graph::lanes_of(before.lanes, inputs, inputs.len()),
    );
    lemma_occupied(lanes, lanes.len(), node);
    lemma_lane_count_grows(features, (i + 1) as nat, n);
}

/// A row, once laid out, stays as it is.
proof fn lemma_row_is_final(features: Seq<FeatureModel>, i: int, n: nat)
    requires
        0 <= i < n <= features.len(),
        features.len() <= usize::MAX,
    ensures
        crate::build_graph::layout(features, n).rows.len() == n,
        crate::build_graph::layout(features, n).rows[i] == crate::build_graph::layout(
            features,
            (i + 1) as nat,
        ).rows[i],
    decreases n,
{
    crate::build_graph::lemma_layout_size(features, n);
    if i < n - 1 {
        crate::build_graph::lemma_layout_size(features, (n - 1) as nat);
        lemma_row_is_final(features, i, (n - 1) as nat);
    }
}

proof fn lemma_lane_count_grows(features: Seq<FeatureModel>, a: nat, b: nat)
    requires
        a <= b,
    ensures
        crate::build_graph::layout(features, a).lane_count <= crate::build_graph::layout(
            features,
            b,
        ).lane_count,
    decreases b,
{
    if a < b {
        lemma_lane_count_grows(features, a, (b - 1) as nat);
    }
}

proof fn lemma_occupied(lanes: Seq<Option<FeatureId>>, n: nat, l: usize)
    requires
        l < n <= lanes.len(),
        lanes[l as int] is Some,
    ensures
        crate::build_graph::occupied(lanes, n).contains(l),
    decreases n,
{
    let all = crate::build_graph::occupied(lanes, n);
    let before = crate::build_graph::occupied(lanes, (n - 1) as nat);
    if l == n - 1 {
        assert(all[before.len() as int] == l);
    } else {
        lemma_occupied(lanes, (n - 1) as nat, l);
        let j = before.index_of(l);
        assert(all[j] == l);
    }
}

/// What holds of the lanes after the first `k` features.
spec fn tidy(features: Seq<FeatureModel>, state: Layout, k: int) -> bool {
    &&& forall|a: int, b: int|
        #![trigger state.lanes[a], state.lanes[b]]
        0 <= a < b < state.lanes.len() && state.lanes[a] is Some ==> state.lanes[a]
            != state.lanes[b]
    &&& forall|a: int|
        0 <= a < state.lanes.len() ==> (#[trigger] state.lanes[a] matches Some(x) ==> exists|j: int|
            0 <= j < k && (#[trigger] features[j]).id == x)
    &&& forall|j: int|
        0 <= j < k && crate::build_graph::used_after(features, k - 1, (#[trigger] features[j]).id)
            ==> {
            &&& state.rows[j].lane < state.lanes.len()
            &&& state.lanes[state.rows[j].lane as int] == Some(features[j].id)
        }
}

proof fn lemma_uses_contained(inputs: Seq<FeatureId>, n: nat, q: int)
    requires
        0 <= q < n <= inputs.len(),
    ensures
        crate::build_graph::occurrences(inputs, n, inputs[q]) >= 1,
    decreases n,
{
    if q < n - 1 {
        lemma_uses_contained(inputs, (n - 1) as nat, q);
    }
}

proof fn lemma_tidy(features: Seq<FeatureModel>, k: nat)
    requires
        k <= features.len() <= usize::MAX,
        crate::regen_laws::distinct_ids(features),
    ensures
        tidy(features, crate::build_graph::layout(features, k), k as int),
    decreases k,
{
    if k > 0 {
        let n = k - 1;
        lemma_tidy(features, n as nat);
        crate::build_graph::lemma_layout_size(features, n as nat);
        crate::build_graph::lemma_layout_size(features, k);
        let state = crate::build_graph::layout(features, n as nat);
        let now = crate::build_graph::layout(features, k);
        let f = features[n];
        let inputs = f.kind.inputs();
        let input_lanes = crate::build_graph::lanes_of(state.lanes, inputs, inputs.len());
        let node = crate::build_graph::node_lane(state.lanes, features, n);
        crate::build_graph::lemma_node_lane(state.lanes, features, n);
        crate::build_graph::lemma_free_lane(state.lanes, 0);
        let lanes = crate::build_graph::lanes_at(state.lanes, features, n, node, input_lanes);
        let left = if crate::build_graph::used_after(features, n, f.id) {
            lanes
        } else {
            lanes.update(node as int, None)
        };
        crate::build_graph::lemma_trimmed(left);
        // The lane taken by the node carried nothing that is still needed.
        assert(node < state.lanes.len() && state.lanes[node as int] is Some
            ==> !crate::build_graph::used_after(
            features,
            n,
            state.lanes[node as int]->Some_0,
        )) by {
            match f.kind.primary_input() {
                Some(p) => {
                    crate::build_graph::lemma_lane_of(state.lanes, p, 0);
                    lemma_uses_contained(inputs, inputs.len(), 0);
                },
                None => {},
            }
        }
        assert forall|a: int| 0 <= a < now.lanes.len() && #[trigger] now.lanes[a] is Some implies {
            ||| a == node && now.lanes[a] == Some(f.id)
            ||| a != node && a < state.lanes.len() && now.lanes[a] == state.lanes[a]
        } by {
            assert(now.lanes[a] == left[a]);
        }
        assert forall|a: int| 0 <= a < state.lanes.len() implies state.lanes[a] != Some(f.id) by {
            if state.lanes[a] == Some(f.id) {
                let j = choose|j: int| 0 <= j < n && (#[trigger] features[j]).id == f.id;
                assert(features[j].id != features[n].id);
            }
        }
        assert forall|a: int|
            0 <= a < now.lanes.len() implies (#[trigger] now.lanes[a] matches Some(x)
            ==> exists|j: int| 0 <= j < k && (#[trigger] features[j]).id == x) by {
            if now.lanes[a] is Some {
                if a == node {
                    assert(features[n].id == f.id);
                } else {
                    assert(now.lanes[a] == state.lanes[a]);
                }
            }
        }
        assert forall|a: int, b: int|
            #![trigger now.lanes[a], now.lanes[b]]
            0 <= a < b < now.lanes.len() && now.lanes[a] is Some implies now.lanes[a]
            != now.lanes[b] by {
            if now.lanes[b] is Some {
                if a != node && b != node {
                    assert(now.lanes[a] == state.lanes[a] && now.lanes[b] == state.lanes[b]);
                } else if a == node {
                    assert(now.lanes[b] == state.lanes[b]);
                } else {
                    assert(now.lanes[a] == state.lanes[a]);
                }
            }
        }
        assert forall|j: int|
            0 <= j < k && crate::build_graph::used_after(
                features,
                k - 1,
                (#[trigger] features[j]).id,
            ) implies {
            &&& now.rows[j].lane < now.lanes.len()
            &&& now.lanes[now.rows[j].lane as int] == Some(features[j].id)
        } by {
            let id = features[j].id;
            let l = now.rows[j].lane;
            if j == n {
                assert(l == node);
                assert(left[l as int] == Some(id));
            } else {
                assert(now.rows[j] == state.rows[j]);
                assert(crate::build_graph::uses(features, k, id) >= crate::build_graph::uses(
                    features,
                    n as nat,
                    id,
                ));
                assert(crate::build_graph::used_after(features, n - 1, id));
                assert(state.lanes[l as int] == Some(id));
                assert(l != node);
                assert(lanes[l as int] == Some(id));
                assert(left[l as int] == Some(id));
            }
            if l >= now.lanes.len() {
                assert(left[l as int] is None);
            }
            assert(now.lanes[l as int] == left[l as int]);
        }
    }
}

/// Every connector leads somewhere: in a history whose references point
/// backward, each input of a feature comes down on the very lane the input's own
/// node sits on, and that lane is open above the row.
pub proof fn law_inputs_come_down_their_own_lanes(features: Seq<FeatureModel>, i: int, q: int)
    requires
        features.len() <= usize::MAX,
        crate::regen_laws::distinct_ids(features),
        crate::history::sound(features),
        0 <= i < features.len(),
        0 <= q < features[i].kind.inputs().len(),
    ensures
        ({
            let g = crate::build_graph::graph(features);
            let source = crate::history::position(features, features[i].kind.inputs()[q], 0);
            &&& g.rows[i].input_lanes.len() == features[i].kind.inputs().len()
            &&& source matches Some(j) && j < i && g.rows[i].input_lanes[q] == g.rows[j].lane
            &&& g.rows[i].top_open.contains(g.rows[i].input_lanes[q])
        }),
{
    let n = features.len();
    let inputs = features[i].kind.inputs();
    let state = crate::build_graph::layout(features, i as nat);
    lemma_tidy(features, i as nat);
    crate::build_graph::lemma_layout_size(features, i as nat);
    lemma_row_is_final(features, i, n);
    assert forall|p: int| 0 <= p < inputs.len() implies ({
        let j = crate::history::position(features, #[trigger] inputs[p], 0);
        &&& j matches Some(j) && 0 <= j < i && crate::build_graph::lane_of(
            state.lanes,
            inputs[p],
            0,
        ) == Some(state.rows[j].lane)
    }) by {
        assert(crate::history::backward(features, i, features[i].kind.inputs()[p]));
        crate::history::lemma_position(features, inputs[p], 0);
        let j = crate::history::position(features, inputs[p], 0)->Some_0;
        lemma_uses_contained(inputs, inputs.len(), p);
        crate::build_graph::lemma_uses_grow(features, (i + 1) as nat, n, inputs[p]);
        assert(crate::build_graph::used_after(features, i - 1, features[j].id));
        crate::build_graph::lemma_lane_of(state.lanes, inputs[p], 0);
        let l = crate::build_graph::lane_of(state.lanes, inputs[p], 0)->Some_0;
        assert(state.lanes[state.rows[j].lane as int] == Some(inputs[p]));
        assert(state.lanes[l as int] == Some(inputs[p]));
        if l != state.rows[j].lane {
            if l < state.rows[j].lane {
                assert(state.lanes[l as int] != state.lanes[state.rows[j].lane as int]);
            } else {
                assert(state.lanes[state.rows[j].lane as int] != state.lanes[l as int]);
            }
        }
    }
    lemma_all_lanes_found(features, state.lanes, inputs, inputs.len());
    let j = crate::history::position(features, inputs[q], 0)->Some_0;
    lemma_row_is_final(features, j, n);
    lemma_row_is_final(features, j, i as nat);
    let l = state.rows[j].lane;
    // The lane was occupied when the row above was laid out.
    lemma_row_is_final(features, i - 1, n);
    let above = crate::build_graph::layout(features, (i - 1) as nat);
    crate::build_graph::lemma_layout_size(features, (i - 1) as nat);
    crate::build_graph::lemma_node_lane(above.lanes, features, i - 1);
    let ins = features[i - 1].kind.inputs();
    let node = crate::build_graph::node_lane(above.lanes, features, i - 1);
    let lanes = crate::build_graph::lanes_at(
        above.lanes,
        features,
        i - 1,
        node,
        crate::build_graph::lanes_of(above.lanes, ins, ins.len()),
    );
    let left = if crate::build_graph::used_after(features, i - 1, features[i - 1].id) {
        lanes
    } else {
        lanes.update(node as int, None)
    };
    crate::build_graph::lemma_trimmed(left);
    crate::build_graph::lemma_lane_of(state.lanes, inputs[q], 0);
    assert(state.lanes[l as int] == left[l as int]);
    assert(lanes[l as int] is Some);
    lemma_occupied(lanes, lanes.len(), l);
    law_rows_follow_the_history(features, i);
}

/// A lane is not taken over: while a body is still to be consumed, no later feature
/// sits on its lane, and the lane stays open below every row in between and above
/// the row that consumes it.
pub proof fn law_lanes_are_not_taken_over(features: Seq<FeatureModel>, j: int, k: int)
    requires
        features.len() <= usize::MAX,
        crate::regen_laws::distinct_ids(features),
        0 <= j < k < features.len(),
        crate::build_graph::used_after(features, k - 1, features[j].id),
    ensures
        ({
            let g = crate::build_graph::graph(features);
            &&& g.rows[k].top_open.contains(g.rows[j].lane)
            &&& crate::build_graph::used_after(features, k, features[j].id) ==> {
                &&& g.rows[k].lane != g.rows[j].lane
                &&& g.rows[k].open.contains(g.rows[j].lane)
            }
        }),
{
    let n = features.len();
    law_rows_follow_the_history(features, k);
    lemma_row_is_final(features, j, n);
    lemma_carried(features, j, k - 1);
    if crate::build_graph::used_after(features, k, features[j].id) {
        lemma_carried(features, j, k);
    }
}

/// A body still to be consumed after the row at `k` is on its lane there, and its
/// lane is the row's own only if the row is.
proof fn lemma_carried(features: Seq<FeatureModel>, j: int, k: int)
    requires
        features.len() <= usize::MAX,
        crate::regen_laws::distinct_ids(features),
        0 <= j <= k < features.len(),
        crate::build_graph::used_after(features, k, features[j].id),
    ensures
        ({
            let rows = crate::build_graph::graph(features).rows;
            &&& rows[k].open.contains(rows[j].lane)
            &&& j < k ==> rows[k].lane != rows[j].lane
        }),
{
    let n = features.len();
    let l = crate::build_graph::graph(features).rows[j].lane;
    lemma_row_is_final(features, j, n);
    lemma_row_is_final(features, j, (k + 1) as nat);
    lemma_row_is_final(features, k, n);
    lemma_tidy(features, (k + 1) as nat);
    crate::build_graph::lemma_layout_size(features, k as nat);
    let state = crate::build_graph::layout(features, k as nat);
    let now = crate::build_graph::layout(features, (k + 1) as nat);
    let inputs = features[k].kind.inputs();
    let node = crate::build_graph::node_lane(state.lanes, features, k);
    crate::build_graph::lemma_node_lane(state.lanes, features, k);
    let lanes = crate::build_graph::lanes_at(
        state.lanes,
        features,
        k,
        node,
        crate::build_graph::lanes_of(state.lanes, inputs, inputs.len()),
    );
    let left = if crate::build_graph::used_after(features, k, features[k].id) {
        lanes
    } else {
        lanes.update(node as int, None)
    };
    crate::build_graph::lemma_trimmed(left);
    assert(now.lanes[l as int] == Some(features[j].id));
    assert(now.lanes[l as int] == left[l as int]);
    assert(lanes[l as int] is Some);
    lemma_occupied(lanes, lanes.len(), l);
    if j < k {
        assert(features[j].id != features[k].id);
    }
}

/// The open lanes of a row are listed from left to right, each once.
pub proof fn law_open_lanes_are_in_order(features: Seq<FeatureModel>, i: int, a: int, b: int)
    requires
        features.len() <= usize::MAX,
        0 <= i < features.len(),
        0 <= a < b < crate::build_graph::graph(features).rows[i].open.len(),
    ensures
        crate::build_graph::graph(features).rows[i].open[a] < crate::build_graph::graph(
            features,
        ).rows[i].open[b],
{
    lemma_row_is_final(features, i, features.len());
    crate::build_graph::lemma_layout_size(features, i as nat);
    let state = crate::build_graph::layout(features, i as nat);
    let inputs = features[i].kind.inputs();
    let node = crate::build_graph::node_lane(state.lanes, features, i);
    crate::build_graph::lemma_node_lane(state.lanes, features, i);
    let lanes = crate::build_graph::lanes_at(
        state.lanes,
        features,
        i,
        node,
        crate::build_graph::lanes_of(state.lanes, inputs, inputs.len()),
    );
    lemma_occupied_in_order(lanes, lanes.len());
}

proof fn lemma_occupied_in_order(lanes: Seq<Option<FeatureId>>, n: nat)
    requires
        n <= lanes.len() <= usize::MAX + 1,
    ensures
        ({
            let all = crate::build_graph::occupied(lanes, n);
            &&& forall|a: int| 0 <= a < all.len() ==> (#[trigger] all[a]) < n
            &&& forall|a: int, b: int|
                #![trigger all[a], all[b]]
                0 <= a < b < all.len() ==> all[a] < all[b]
        }),
    decreases n,
{
    if n > 0 {
        lemma_occupied_in_order(lanes, (n - 1) as nat);
        let before = crate::build_graph::occupied(lanes, (n - 1) as nat);
        let all = crate::build_graph::occupied(lanes, n);
        assert forall|a: int| 0 <= a < all.len() implies (#[trigger] all[a]) < n by {
            if a < before.len() {
                assert(all[a] == before[a]);
            }
        }
        assert forall|a: int, b: int|
            #![trigger all[a], all[b]]
            0 <= a < b < all.len() implies all[a] < all[b] by {
            assert(all[a] == before[a]);
            if b < before.len() {
                assert(all[b] == before[b]);
            }
        }
    }
}

/// No more lanes are counted than are used: some row sits on the last one.
pub proof fn law_the_last_lane_is_used(features: Seq<FeatureModel>)
    requires
        0 < features.len() <= usize::MAX,
    ensures
        ({
            let g = crate::build_graph::graph(features);
            exists|i: int|
                0 <= i < g.rows.len() && (#[trigger] g.rows[i]).lane + 1 == g.lane_count
        }),
{
    lemma_last_lane_used(features, features.len());
    let done = crate::build_graph::layout(features, features.len());
    let g = crate::build_graph::graph(features);
    let i = choose|i: int|
        0 <= i < done.rows.len() && (#[trigger] done.rows[i]).lane + 1 == done.lane_count;
    assert(g.rows[i].lane + 1 == g.lane_count);
}

proof fn lemma_last_lane_used(features: Seq<FeatureModel>, k: nat)
    requires
        k <= features.len() <= usize::MAX,
    ensures
        ({
            let state = crate::build_graph::layout(features, k);
            &&& state.lanes.len() <= state.lane_count
            &&& k > 0 ==> exists|i: int|
                0 <= i < state.rows.len() && (#[trigger] state.rows[i]).lane + 1
                    == state.lane_count
        }),
    decreases k,
{
    if k > 0 {
        let n = k - 1;
        lemma_last_lane_used(features, n as nat);
        crate::build_graph::lemma_layout_size(features, n as nat);
        crate::build_graph::lemma_layout_size(features, k);
        let state = crate::build_graph::layout(features, n as nat);
        let now = crate::build_graph::layout(features, k);
        let inputs = features[n].kind.inputs();
        let node = crate::build_graph::node_lane(state.lanes, features, n);
        crate::build_graph::lemma_node_lane(state.lanes, features, n);
        let lanes = crate::build_graph::lanes_at(
            state.lanes,
            features,
            n,
            node,
            crate::build_graph::lanes_of(state.lanes, inputs, inputs.len()),
        );
        crate::build_graph::lemma_trimmed(lanes);
        crate::build_graph::lemma_trimmed(lanes.update(node as int, None));
        if now.lane_count == state.lane_count && n > 0 {
            let i = choose|i: int|
                0 <= i < state.rows.len() && (#[trigger] state.rows[i]).lane + 1
                    == state.lane_count;
            assert(now.rows[i] == state.rows[i]);
        } else {
            assert(lanes.len() == node + 1);
            assert(now.rows[n].lane == node);
        }
    }
}

/// In a history whose references point backward, a feature goes on along the lane of
/// its main input exactly if nothing else consumes that input, and otherwise
/// branches off.
pub proof fn law_a_sole_consumer_continues_the_lane(features: Seq<FeatureModel>, i: int)
    requires
        features.len() <= usize::MAX,
        crate::regen_laws::distinct_ids(features),
        crate::history::sound(features),
        0 <= i < features.len(),
        features[i].kind.primary_input() is Some,
    ensures
        ({
            let g = crate::build_graph::graph(features);
            let main = features[i].kind.primary_input()->Some_0;
            &&& crate::history::position(features, main, 0) matches Some(j)
            &&& (g.rows[i].lane == g.rows[j].lane) == crate::build_graph::used_once(features, main)
        }),
{
    let n = features.len();
    let inputs = features[i].kind.inputs();
    let main = features[i].kind.primary_input()->Some_0;
    assert(inputs[0] == main);
    law_inputs_come_down_their_own_lanes(features, i, 0);
    let j = crate::history::position(features, main, 0)->Some_0;
    crate::history::lemma_position(features, main, 0);
    lemma_row_is_final(features, i, n);
    lemma_row_is_final(features, j, n);
    lemma_row_is_final(features, j, i as nat);
    let state = crate::build_graph::layout(features, i as nat);
    crate::build_graph::lemma_layout_size(features, i as nat);
    lemma_tidy(features, i as nat);
    lemma_uses_contained(inputs, inputs.len(), 0);
    crate::build_graph::lemma_uses_grow(features, (i + 1) as nat, n, main);
    assert(crate::build_graph::used_after(features, i - 1, features[j].id));
    let l = state.rows[j].lane;
    assert(state.lanes[l as int] == Some(main));
    crate::build_graph::lemma_lane_of(state.lanes, main, 0);
    let found = crate::build_graph::lane_of(state.lanes, main, 0)->Some_0;
    if found != l {
        if found < l {
            assert(state.lanes[found as int] != state.lanes[l as int]);
        } else {
            assert(state.lanes[l as int] != state.lanes[found as int]);
        }
    }
    crate::build_graph::lemma_free_lane(state.lanes, 0);
}

/// If every input is on a lane, the lanes listed are theirs, one for one.
proof fn lemma_all_lanes_found(
    features: Seq<FeatureModel>,
    lanes: Seq<Option<FeatureId>>,
    inputs: Seq<FeatureId>,
    n: nat,
)
    requires
        n <= inputs.len(),
        forall|p: int|
            0 <= p < inputs.len() ==> crate::build_graph::lane_of(lanes, #[trigger] inputs[p], 0) is Some,
    ensures
        crate::build_graph::lanes_of(lanes, inputs, n).len() == n,
        forall|p: int|
            0 <= p < n ==> #[trigger] crate::build_graph::lanes_of(lanes, inputs, n)[p]
                == crate::build_graph::lane_of(lanes, inputs[p], 0)->Some_0,
    decreases n,
{
    if n > 0 {
        lemma_all_lanes_found(features, lanes, inputs, (n - 1) as nat);
        assert(crate::build_graph::lane_of(lanes, inputs[n - 1], 0) is Some);
    }
}

/// Each feature consumes exactly the one before it, and the first consumes
/// nothing.
pub open spec fn chain(features: Seq<FeatureModel>) -> bool {
    &&& features.len() > 0
    &&& features[0].kind.inputs().len() == 0
    &&& forall|i: int|
        #![trigger features[i]]
        0 < i < features.len() ==> features[i].kind.inputs() == seq![features[i - 1].id]
}

/// A straight chain stays on one lane.
pub proof fn law_a_chain_is_one_lane(features: Seq<FeatureModel>)
    requires
        features.len() <= usize::MAX,
        crate::regen_laws::distinct_ids(features),
        chain(features),
    ensures
        ({
            let g = crate::build_graph::graph(features);
            &&& g.lane_count == 1
            &&& forall|i: int| 0 <= i < g.rows.len() ==> (#[trigger] g.rows[i]).lane == 0
        }),
{
    let n = features.len();
    lemma_chain_upto(features, n);
}

proof fn lemma_chain_uses(features: Seq<FeatureModel>, n: nat, j: int)
    requires
        n <= features.len(),
        crate::regen_laws::distinct_ids(features),
        chain(features),
        0 <= j < features.len(),
    ensures
        crate::build_graph::uses(features, n, features[j].id) == (if j + 1 < n {
            1nat
        } else {
            0
        }),
    decreases n,
{
    if n > 0 {
        lemma_chain_uses(features, (n - 1) as nat, j);
        let inputs = features[n - 1].kind.inputs();
        reveal_with_fuel(crate::build_graph::occurrences, 2);
        if n - 1 > 0 {
            assert(inputs == seq![features[n - 2].id]);
            if j != n - 2 {
                assert(features[j].id != features[n - 2].id) by {
                    if j < n - 2 {
                        assert(features[j].id != features[n - 2].id);
                    } else {
                        assert(features[n - 2].id != features[j].id);
                    }
                }
            }
        }
    }
}

proof fn lemma_chain_upto(features: Seq<FeatureModel>, k: nat)
    requires
        0 < k <= features.len() <= usize::MAX,
        crate::regen_laws::distinct_ids(features),
        chain(features),
    ensures
        ({
            let state = crate::build_graph::layout(features, k);
            &&& state.lane_count == 1
            &&& forall|i: int| 0 <= i < state.rows.len() ==> (#[trigger] state.rows[i]).lane == 0
            &&& k < features.len() ==> state.lanes == seq![Some(features[k - 1].id)]
        }),
    decreases k,
{
    let n = k - 1;
    let len = features.len();
    let state = crate::build_graph::layout(features, n as nat);
    let now = crate::build_graph::layout(features, k);
    crate::build_graph::lemma_layout_size(features, n as nat);
    let inputs = features[n].kind.inputs();
    let node = crate::build_graph::node_lane(state.lanes, features, n);
    let input_lanes = crate::build_graph::lanes_of(state.lanes, inputs, inputs.len());
    let lanes = crate::build_graph::lanes_at(state.lanes, features, n, node, input_lanes);
    reveal_with_fuel(crate::build_graph::lane_of, 2);
    reveal_with_fuel(crate::build_graph::free_lane, 2);
    reveal_with_fuel(crate::build_graph::trimmed, 2);
    if n > 0 {
        lemma_chain_upto(features, n as nat);
        assert(state.lanes == seq![Some(features[n - 1].id)]);
        assert(inputs == seq![features[n - 1].id]);
        lemma_chain_uses(features, len, n - 1);
        assert(node == 0);
    } else {
        assert(node == 0);
    }
    assert(lanes =~= seq![Some(features[n].id)]);
    lemma_chain_uses(features, len, n);
    lemma_chain_uses(features, k, n);
    assert(now.lane_count == 1);
    assert(now.rows.last().lane == 0);
}

/// Every lane in use carries a body that is still to be consumed, down from that body's
/// own row.
spec fn all_needed(features: Seq<FeatureModel>, state: Layout, k: int) -> bool {
    forall|a: int|
        0 <= a < state.lanes.len() ==> (#[trigger] state.lanes[a] matches Some(x) ==> carried(
            features,
            state,
            k,
            a,
            x,
        ))
}

/// Lane `a` carries the body `x` down from its row, and it is still to be consumed.
spec fn carried(
    features: Seq<FeatureModel>,
    state: Layout,
    k: int,
    a: int,
    x: FeatureId,
) -> bool {
    crate::build_graph::used_after(features, k - 1, x) && exists|j: int|
        0 <= j < k && (#[trigger] features[j]).id == x && state.rows[j].lane == a
}

proof fn lemma_occurs(inputs: Seq<FeatureId>, n: nat, x: FeatureId) -> (q: int)
    requires
        n <= inputs.len(),
        crate::build_graph::occurrences(inputs, n, x) > 0,
    ensures
        0 <= q < n,
        inputs[q] == x,
    decreases n,
{
    if inputs[n - 1] == x {
        n - 1
    } else {
        lemma_occurs(inputs, (n - 1) as nat, x)
    }
}

proof fn lemma_lane_listed(
    lanes: Seq<Option<FeatureId>>,
    inputs: Seq<FeatureId>,
    n: nat,
    q: int,
)
    requires
        0 <= q < n <= inputs.len(),
        crate::build_graph::lane_of(lanes, inputs[q], 0) is Some,
    ensures
        crate::build_graph::lanes_of(lanes, inputs, n).contains(
            crate::build_graph::lane_of(lanes, inputs[q], 0)->Some_0,
        ),
    decreases n,
{
    let all = crate::build_graph::lanes_of(lanes, inputs, n);
    let before = crate::build_graph::lanes_of(lanes, inputs, (n - 1) as nat);
    let l = crate::build_graph::lane_of(lanes, inputs[q], 0)->Some_0;
    if q == n - 1 {
        assert(all[before.len() as int] == l);
    } else {
        lemma_lane_listed(lanes, inputs, (n - 1) as nat, q);
        let k = before.index_of(l);
        assert(all[k] == l);
    }
}

proof fn lemma_all_needed(features: Seq<FeatureModel>, k: nat)
    requires
        k <= features.len() <= usize::MAX,
        crate::regen_laws::distinct_ids(features),
    ensures
        all_needed(features, crate::build_graph::layout(features, k), k as int),
    decreases k,
{
    if k > 0 {
        let n = k - 1;
        lemma_all_needed(features, n as nat);
        lemma_tidy(features, n as nat);
        crate::build_graph::lemma_layout_size(features, n as nat);
        crate::build_graph::lemma_layout_size(features, k);
        let state = crate::build_graph::layout(features, n as nat);
        let now = crate::build_graph::layout(features, k);
        let f = features[n];
        let inputs = f.kind.inputs();
        let input_lanes = crate::build_graph::lanes_of(state.lanes, inputs, inputs.len());
        let node = crate::build_graph::node_lane(state.lanes, features, n);
        crate::build_graph::lemma_node_lane(state.lanes, features, n);
        let lanes = crate::build_graph::lanes_at(state.lanes, features, n, node, input_lanes);
        let left = if crate::build_graph::used_after(features, n, f.id) {
            lanes
        } else {
            lanes.update(node as int, None)
        };
        crate::build_graph::lemma_trimmed(left);
        assert forall|a: int| 0 <= a < now.lanes.len() implies (
        #[trigger] now.lanes[a] matches Some(x) ==> carried(features, now, k as int, a, x)) by {
            if let Some(x) = now.lanes[a] {
                assert(now.lanes[a] == left[a]);
                if a == node {
                    assert(x == f.id);
                    assert(features[n].id == x && now.rows[n].lane == a);
                } else {
                    assert(state.lanes[a] == Some(x));
                    assert(carried(features, state, n, a, x));
                    let j = choose|j: int|
                        0 <= j < n && (#[trigger] features[j]).id == x && state.rows[j].lane == a;
                    assert(now.rows[j] == state.rows[j]);
                    assert(features[j].id == x && now.rows[j].lane == a);
                    if !crate::build_graph::used_after(features, n, x) {
                        let q = lemma_occurs(inputs, inputs.len(), x);
                        crate::build_graph::lemma_lane_of(state.lanes, x, 0);
                        let l = crate::build_graph::lane_of(state.lanes, x, 0)->Some_0;
                        assert(state.lanes[l as int] == Some(x));
                        if l < a {
                            assert(state.lanes[l as int] != state.lanes[a]);
                        } else if a < l {
                            assert(state.lanes[a] != state.lanes[l as int]);
                        }
                        lemma_lane_listed(state.lanes, inputs, inputs.len(), q);
                        assert(input_lanes.contains(a as usize));
                    }
                }
            }
        }
    }
}

/// A feature that begins a lane or branches off takes the leftmost one that is free:
/// every lane to its left is that of an earlier feature whose body is still to be
/// consumed.
pub proof fn law_the_leftmost_free_lane_is_taken(features: Seq<FeatureModel>, i: int, l: int)
    requires
        features.len() <= usize::MAX,
        crate::regen_laws::distinct_ids(features),
        0 <= i < features.len(),
        features[i].kind.primary_input() matches Some(p) ==> !crate::build_graph::used_once(
            features,
            p,
        ),
        0 <= l < crate::build_graph::graph(features).rows[i].lane,
    ensures
        exists|j: int|
            {
                &&& 0 <= j < i
                &&& #[trigger] crate::build_graph::graph(features).rows[j].lane == l
                &&& crate::build_graph::used_after(features, i - 1, features[j].id)
            },
{
    let n = features.len();
    let g = crate::build_graph::graph(features);
    lemma_row_is_final(features, i, n);
    lemma_all_needed(features, i as nat);
    crate::build_graph::lemma_layout_size(features, i as nat);
    let state = crate::build_graph::layout(features, i as nat);
    assert(g.rows[i].lane == crate::build_graph::free_lane(state.lanes, 0));
    crate::build_graph::lemma_free_lane(state.lanes, 0);
    lemma_free_is_first(state.lanes, 0);
    assert(state.lanes[l] is Some);
    let x = state.lanes[l]->Some_0;
    assert(carried(features, state, i, l, x));
    let j = choose|j: int|
        0 <= j < i && (#[trigger] features[j]).id == x && state.rows[j].lane == l;
    lemma_row_is_final(features, j, n);
    lemma_row_is_final(features, j, i as nat);
    assert(g.rows[j].lane == l);
}

proof fn lemma_free_is_first(lanes: Seq<Option<FeatureId>>, from: int)
    requires
        0 <= from <= lanes.len() <= usize::MAX,
    ensures
        forall|l: int|
            from <= l < crate::build_graph::free_lane(lanes, from) ==> (#[trigger] lanes[l]) is Some,
    decreases lanes.len() - from,
{
    if from < lanes.len() && lanes[from] is Some {
        lemma_free_is_first(lanes, from + 1);
        crate::build_graph::lemma_free_lane(lanes, from + 1);
    }
}

} // verus!
