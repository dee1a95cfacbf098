//! What holds of every state graph, whatever was recorded.

use vstd::prelude::*;
use crate::observer::lemma_pack_unpack;
use crate::observer::transition_ends;
use crate::observer::transition_key;
use crate::observer::GraphView;

verus! {

/// Whether the observations `i` and `i + 1` of a run are two different states.
pub open spec fn is_step<PS>(states: Seq<PS>, i: int) -> bool {
    0 <= i < states.len() - 1 && states[i] != states[i + 1]
}

/// The key of the transition between the observations `i` and `i + 1`.
pub open spec fn step_key<PS>(nodes: Map<PS, u32>, states: Seq<PS>, i: int) -> u64 {
    transition_key(nodes[states[i]], nodes[states[i + 1]])
}

/// There is room for a run that is no longer than the number of ids that are left.
pub proof fn lemma_room_by_count<PS>(g: GraphView<PS>, states: Seq<PS>)
    requires
        g.nodes.dom().finite(),
        g.nodes.len() + states.len() <= u32::MAX + 1,
    ensures
        g.has_room(states),
{
    vstd::seq_lib::seq_to_set_is_finite(states);
    states.lemma_cardinality_of_set();
    vstd::set_lib::lemma_len_union(g.nodes.dom(), states.to_set());
}

/// Where there is room for a run, there is room for each part of it
/// that starts at its beginning.
pub proof fn lemma_room_prefix<PS>(g: GraphView<PS>, states: Seq<PS>, front: Seq<PS>)
    requires
        g.nodes.dom().finite(),
        g.has_room(states),
        front.is_prefix_of(states),
    ensures
        g.has_room(front),
{
    vstd::seq_lib::seq_to_set_is_finite(states);
    assert forall|s: PS| front.to_set().contains(s) implies states.to_set().contains(s) by {
        let i = choose|i: int| 0 <= i < front.len() && front[i] == s;
        assert(states[i] == s);
    }
    assert(g.nodes.dom().union(front.to_set()).subset_of(g.nodes.dom().union(states.to_set())));
    vstd::set_lib::lemma_len_subset(
        g.nodes.dom().union(front.to_set()),
        g.nodes.dom().union(states.to_set()),
    );
}

/// Recording a state keeps every node with its id and every edge.
pub proof fn lemma_record_grows<PS>(g: GraphView<PS>, state: PS)
    ensures
        g.nodes.submap_of(g.record(state).nodes),
        g.edges.subset_of(g.record(state).edges),
{
}

/// The state graph never shrinks: a new run, with the reset before it,
/// keeps every node with its id and every edge.
pub proof fn lemma_graph_monotonic<PS>(g: GraphView<PS>, states: Seq<PS>)
    ensures
        g.nodes.submap_of(g.reset().record_all(states).nodes),
        g.edges.subset_of(g.reset().record_all(states).edges),
    decreases states.len(),
{
    if states.len() > 0 {
        lemma_graph_monotonic(g, states.drop_last());
        lemma_record_grows(g.reset().record_all(states.drop_last()), states.last());
    }
}

/// Recording a state keeps the graph well formed and makes the state a
/// node; no other node is added.
pub proof fn lemma_record<PS>(g: GraphView<PS>, state: PS)
    requires
        g.wf(),
        g.can_record(state),
    ensures
        g.record(state).wf(),
        g.record(state).nodes.dom() == g.nodes.dom().insert(state),
        g.record(state).nodes[state] == g.node_id(state),
        g.record(state).last_node == Some(g.node_id(state)),
{
    let id = g.node_id(state);
    let n = g.add_node(state);
    assert(n.wf());
    assert(n.nodes.dom() =~= g.nodes.dom().insert(state));
    if let Some(prev) = n.last_node {
        if prev != id {
            lemma_pack_unpack(prev, id);
        }
    }
}

/// Recording a run keeps the graph well formed; its nodes are then those
/// from before together with the states of the run, and each state of
/// the run could be recorded when its turn came.
pub proof fn lemma_record_all<PS>(g: GraphView<PS>, states: Seq<PS>)
    requires
        g.wf(),
        g.has_room(states),
    ensures
        g.record_all(states).wf(),
        g.record_all(states).nodes.dom() == g.nodes.dom().union(states.to_set()),
        g.nodes.submap_of(g.record_all(states).nodes),
        g.edges.subset_of(g.record_all(states).edges),
        states.len() > 0 ==> g.record_all(states).last_node == Some(
            g.record_all(states).nodes[states.last()],
        ),
        states.len() > 0 ==> g.has_room(states.drop_last()) && g.record_all(
            states.drop_last(),
        ).can_record(states.last()),
        states.len() == 0 ==> g.record_all(states) == g,
    decreases states.len(),
{
    vstd::seq_lib::seq_to_set_is_finite(states);
    let all = g.nodes.dom().union(states.to_set());
    if states.len() > 0 {
        let front = states.drop_last();
        let s = states.last();
        let h = g.record_all(front);
        vstd::seq_lib::seq_to_set_is_finite(front);
        assert(states =~= front.push(s));
        front.lemma_push_to_set_commute(s);
        assert(g.nodes.dom().union(front.to_set()).subset_of(all));
        vstd::set_lib::lemma_len_subset(g.nodes.dom().union(front.to_set()), all);
        lemma_record_all(g, front);
        if !h.nodes.contains_key(s) {
            assert(h.nodes.dom().insert(s) =~= all);
        }
        lemma_record(h, s);
        lemma_record_grows(h, s);
        assert(h.record(s).nodes.dom() =~= all);
    } else {
        assert(states.to_set() =~= Set::<PS>::empty());
        assert(all =~= g.nodes.dom());
    }
}

/// No edge leads from a node to itself: not in a well-formed graph, and
/// not after any run that is recorded in it.
pub proof fn lemma_no_self_loop<PS>(g: GraphView<PS>, states: Seq<PS>)
    requires
        g.wf(),
        g.has_room(states),
    ensures
        forall|e: u64| #[trigger]
            g.record_all(states).edges.contains(e) ==> transition_ends(e).0 != transition_ends(e).1,
{
    lemma_record_all(g, states);
}

/// The edges after a run are those from before it together with one for each
/// pair of neighbouring observations that differ, and the run is marked as
/// having new transitions exactly if one of those was not there before.
pub proof fn lemma_run_edges<PS>(g: GraphView<PS>, states: Seq<PS>)
    requires
        g.wf(),
        g.has_room(states),
        g.last_node is None,
        !g.new_transitions,
    ensures
        forall|i: int| #[trigger]
            is_step(states, i) ==> g.record_all(states).edges.contains(
                step_key(g.record_all(states).nodes, states, i),
            ),
        forall|e: u64| #[trigger]
            g.record_all(states).edges.contains(e) ==> g.edges.contains(e) || exists|i: int| #[trigger]
                is_step(states, i) && step_key(g.record_all(states).nodes, states, i) == e,
        g.record_all(states).new_transitions <==> exists|i: int| #[trigger]
            is_step(states, i) && !g.edges.contains(
                step_key(g.record_all(states).nodes, states, i),
            ),
    decreases states.len(),
{
    let run = g.record_all(states);
    if states.len() > 0 {
        let front = states.drop_last();
        let h = g.record_all(front);
        let s = states.last();
        lemma_record_all(g, states);
        lemma_run_edges(g, front);
        lemma_record_all(g, front);
        lemma_record(h, s);
        lemma_record_grows(h, s);
        assert forall|i: int| 0 <= i < front.len() implies h.nodes.contains_key(
            #[trigger] front[i],
        ) by {
            assert(front.to_set().contains(front[i]));
        }
        assert(run == h.record(s));
        // A step of the shorter run is the same step, with the same key, in the longer one.
        assert forall|i: int| is_step(front, i) implies is_step(states, i) && step_key(
            h.nodes,
            front,
            i,
        ) == step_key(run.nodes, states, i) by {
            assert(h.nodes.contains_key(front[i]));
            assert(h.nodes.contains_key(front[i + 1]));
        }
        assert forall|i: int| is_step(states, i) && i < front.len() - 1 implies is_step(front, i)
            && step_key(h.nodes, front, i) == step_key(run.nodes, states, i) by {
            assert(h.nodes.contains_key(front[i]));
            assert(h.nodes.contains_key(front[i + 1]));
        }
        let last = states.len() - 2;
        if front.len() > 0 {
            let p = front.last();
            let prev = h.nodes[p];
            let id = h.node_id(s);
            assert(h.last_node == Some(prev));
            assert(h.nodes.contains_key(p));
            assert(run.nodes[p] == prev);
            assert(run.nodes[s] == id);
            assert(states[last] == p);
            assert(states[last + 1] == s);
            if p != s {
                assert(prev != id) by {
                    if h.nodes.contains_key(s) {
                    } else {
                        assert((prev as nat) < h.nodes.len());
                    }
                }
                assert(is_step(states, last));
                assert(step_key(run.nodes, states, last) == transition_key(prev, id));
                assert(run.edges == h.edges.insert(transition_key(prev, id)));
            } else {
                assert(prev == id);
                assert(!is_step(states, last));
                assert(run.edges == h.edges);
                assert(run.new_transitions == h.new_transitions);
            }
        } else {
            assert(h == g);
            assert(run.edges == g.edges);
            assert(forall|i: int| !is_step(states, i));
        }
        assert forall|i: int| #[trigger] is_step(states, i) implies run.edges.contains(
            step_key(run.nodes, states, i),
        ) by {
            if i < front.len() - 1 {
                assert(is_step(front, i));
            }
        }
        assert forall|e: u64| #[trigger] run.edges.contains(e) implies g.edges.contains(e)
            || exists|i: int| #[trigger] is_step(states, i) && step_key(run.nodes, states, i) == e by {
            if h.edges.contains(e) {
                if !g.edges.contains(e) {
                    let i = choose|i: int| #[trigger]
                        is_step(front, i) && step_key(h.nodes, front, i) == e;
                    assert(is_step(states, i));
                }
            } else {
                assert(is_step(states, last));
            }
        }
        if run.new_transitions {
            if h.new_transitions {
                let i = choose|i: int| #[trigger]
                    is_step(front, i) && !g.edges.contains(step_key(h.nodes, front, i));
                assert(is_step(states, i));
            } else {
                assert(is_step(states, last));
                assert(!g.edges.contains(step_key(run.nodes, states, last)));
            }
        }
        if exists|i: int| #[trigger]
            is_step(states, i) && !g.edges.contains(step_key(run.nodes, states, i)) {
            let i = choose|i: int| #[trigger]
                is_step(states, i) && !g.edges.contains(step_key(run.nodes, states, i));
            if i < front.len() - 1 {
                assert(is_step(front, i));
                assert(h.new_transitions);
            } else {
                let e = step_key(run.nodes, states, last);
                if h.edges.contains(e) {
                    let j = choose|j: int| #[trigger]
                        is_step(front, j) && step_key(h.nodes, front, j) == e;
                    assert(is_step(front, j) && !g.edges.contains(step_key(h.nodes, front, j)));
                    assert(h.new_transitions);
                }
            }
            assert(run.new_transitions);
        }
    } else {
        assert(forall|i: int| !is_step(states, i));
    }
}

} // verus!
