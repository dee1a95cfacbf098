//! The state graph: which target states were seen, and which transitions
//! between them, over all runs of one fuzzer instance.

use vstd::prelude::*;
use ahash::RandomState;
use std::collections::HashMap;
use std::collections::HashSet;
use std::hash::Hash;
use vstd::std_specs::hash::builds_valid_hashers;
use vstd::std_specs::hash::obeys_key_model;
use vstd::std_specs::iter::IteratorSpec;
use crate::dot::dot_text;
use crate::dot::write_dot;
use crate::hashing::hash_state;

verus! {

/// The key of the transition `from -> to`: `from` in the upper 32 bits,
/// `to` in the lower 32 bits.
pub open spec fn transition_key(from: u32, to: u32) -> u64 {
    (from as int * 0x1_0000_0000 + to as int) as u64
}

/// The two node ids that a transition key holds, source first.
pub open spec fn transition_ends(key: u64) -> (u32, u32) {
    ((key as int / 0x1_0000_0000) as u32, (key as int % 0x1_0000_0000) as u32)
}

/// Packs a transition into its key.
pub fn pack_transition(from: u32, to: u32) -> (key: u64)
    ensures
        key == transition_key(from, to),
{
    let key = ((from as u64) << 32) | (to as u64);
    assert(((from as u64) << 32) | (to as u64) == (from as u64) * 0x1_0000_0000 + (to as u64))
        by (bit_vector);
    key
}

/// Takes a transition key apart again.
pub fn unpack_transition(transition: u64) -> (ends: (u32, u32))
    ensures
        ends == transition_ends(transition),
{
    let from = (transition >> 32) as u32;
    let to = transition as u32;
    assert((transition >> 32) as u32 == (transition / 0x1_0000_0000) as u32) by (bit_vector);
    assert(transition / 0x1_0000_0000 <= 0xffff_ffff) by (bit_vector);
    assert(transition as u32 == transition % 0x1_0000_0000) by (bit_vector);
    (from, to)
}

/// Packing and unpacking are inverse to each other.
pub proof fn lemma_pack_unpack(from: u32, to: u32)
    ensures
        transition_ends(transition_key(from, to)) == (from, to),
{
    let k = from as int * 0x1_0000_0000 + to as int;
    assert(0 <= k <= u64::MAX);
    assert(k / 0x1_0000_0000 == from as int && k % 0x1_0000_0000 == to as int) by {
        vstd::arithmetic::div_mod::lemma_fundamental_div_mod_converse(
            k,
            0x1_0000_0000,
            from as int,
            to as int,
        );
    }
}

/// Every key is the key of the transition between its two ends.
pub proof fn lemma_unpack_pack(key: u64)
    ensures
        transition_key(transition_ends(key).0, transition_ends(key).1) == key,
{
    let q = key as int / 0x1_0000_0000;
    let r = key as int % 0x1_0000_0000;
    vstd::arithmetic::div_mod::lemma_fundamental_div_mod(key as int, 0x1_0000_0000);
    assert(0 <= q <= 0xffff_ffff);
    assert(0 <= r <= 0xffff_ffff);
}

/// What a state graph holds, as mathematical values.
#[verifier::reject_recursive_types(PS)]
pub struct GraphView<PS> {
    /// The id of each state seen so far.
    pub nodes: Map<PS, u32>,
    /// The keys of the transitions seen so far.
    pub edges: Set<u64>,
    /// The node of the state recorded last in the current run.
    pub last_node: Option<u32>,
    /// Whether the current run added a transition.
    pub new_transitions: bool,
}

impl<PS> GraphView<PS> {
    /// The graph before anything was recorded.
    pub open spec fn empty() -> Self {
        GraphView {
            nodes: Map::empty(),
            edges: Set::empty(),
            last_node: None,
            new_transitions: false,
        }
    }

    /// The invariant of a state graph: node ids are dense and given once,
    /// every edge joins two different nodes of the graph, and the last node
    /// is one of the graph.
    pub open spec fn wf(self) -> bool {
        &&& self.nodes.dom().finite()
        &&& self.edges.finite()
        &&& forall|s: PS| #[trigger]
            self.nodes.contains_key(s) ==> (self.nodes[s] as nat) < self.nodes.len()
        &&& forall|s: PS, t: PS|
            #![trigger self.nodes[s], self.nodes[t]]
            self.nodes.contains_key(s) && self.nodes.contains_key(t) && self.nodes[s]
                == self.nodes[t] ==> s == t
        &&& forall|e: u64| #[trigger]
            self.edges.contains(e) ==> {
                &&& transition_ends(e).0 != transition_ends(e).1
                &&& (transition_ends(e).0 as nat) < self.nodes.len()
                &&& (transition_ends(e).1 as nat) < self.nodes.len()
            }
        &&& self.last_node matches Some(id) ==> (id as nat) < self.nodes.len()
    }

    /// Whether `state` can be recorded: it is a node already, or there is
    /// a 32-bit id left for it.
    pub open spec fn can_record(self, state: PS) -> bool {
        self.nodes.contains_key(state) || self.nodes.len() <= u32::MAX
    }

    /// Whether all of `states` can be recorded: the nodes of the graph and
    /// the states that are new do not need more ids than 32 bits give.
    pub open spec fn has_room(self, states: Seq<PS>) -> bool {
        self.nodes.dom().union(states.to_set()).len() <= u32::MAX + 1
    }

    /// The id that `state` has, or will get when it is added next.
    pub open spec fn node_id(self, state: PS) -> u32 {
        if self.nodes.contains_key(state) {
            self.nodes[state]
        } else {
            self.nodes.len() as u32
        }
    }

    /// The graph with `state` among its nodes: a state that is new gets the
    /// next free id, a known one keeps its id.
    pub open spec fn add_node(self, state: PS) -> Self {
        if self.nodes.contains_key(state) {
            self
        } else {
            GraphView { nodes: self.nodes.insert(state, self.nodes.len() as u32), ..self }
        }
    }

    /// The graph after the run has moved on to node `id`: the transition from
    /// the last node is added unless there is no last node or it is `id` itself.
    pub open spec fn add_edge(self, id: u32) -> Self {
        match self.last_node {
            Some(prev) if prev != id => GraphView {
                edges: self.edges.insert(transition_key(prev, id)),
                new_transitions: self.new_transitions || !self.edges.contains(
                    transition_key(prev, id),
                ),
                last_node: Some(id),
                ..self
            },
            _ => GraphView { last_node: Some(id), ..self },
        }
    }

    /// The graph after `state` was observed.
    pub open spec fn record(self, state: PS) -> Self {
        self.add_node(state).add_edge(self.node_id(state))
    }

    /// The graph at the start of a run: nodes and edges stay, the per-run
    /// marks are cleared.
    pub open spec fn reset(self) -> Self {
        GraphView { last_node: None, new_transitions: false, ..self }
    }

    /// The graph after the states of `states` were observed in order.
    pub open spec fn record_all(self, states: Seq<PS>) -> Self
        decreases states.len(),
    {
        if states.len() == 0 {
            self
        } else {
            self.record_all(states.drop_last()).record(states.last())
        }
    }
}

/// The map that takes each state of `list` to the id listed with it; of
/// two entries for one state the later one counts.
pub open spec fn nodes_map<PS>(list: Seq<(PS, u32)>) -> Map<PS, u32>
    decreases list.len(),
{
    if list.len() == 0 {
        Map::empty()
    } else {
        nodes_map(list.drop_last()).insert(list.last().0, list.last().1)
    }
}

/// What a list of nodes says of the map that it stands for, where no
/// state is listed twice: the map has as many states as the list has
/// entries, and takes each listed state to the id listed with it.
pub proof fn lemma_nodes_map<PS>(list: Seq<(PS, u32)>)
    requires
        forall|i: int, j: int| 0 <= i < j < list.len() ==> list[i].0 != list[j].0,
    ensures
        nodes_map(list).dom().finite(),
        nodes_map(list).len() == list.len(),
        forall|i: int|
            0 <= i < list.len() ==> nodes_map(list).contains_key(#[trigger] list[i].0) && nodes_map(
                list,
            )[list[i].0] == list[i].1,
        forall|s: PS| #[trigger]
            nodes_map(list).contains_key(s) ==> exists|i: int|
                0 <= i < list.len() && #[trigger] list[i].0 == s,
    decreases list.len(),
{
    if list.len() > 0 {
        let front = list.drop_last();
        lemma_nodes_map(front);
        assert forall|i: int| 0 <= i < list.len() implies nodes_map(list).contains_key(
            #[trigger] list[i].0,
        ) && nodes_map(list)[list[i].0] == list[i].1 by {
            if i < front.len() {
                assert(front[i] == list[i]);
                assert(list[i].0 != list.last().0);
            }
        }
        assert forall|s: PS| #[trigger] nodes_map(list).contains_key(s) implies exists|i: int|
            0 <= i < list.len() && #[trigger] list[i].0 == s by {
            if s == list.last().0 {
                assert(list[list.len() - 1].0 == s);
            } else {
                let i = choose|i: int| 0 <= i < front.len() && #[trigger] front[i].0 == s;
                assert(list[i].0 == s);
            }
        }
        assert(!nodes_map(front).contains_key(list.last().0)) by {
            if nodes_map(front).contains_key(list.last().0) {
                let i = choose|i: int|
                    0 <= i < front.len() && #[trigger] front[i].0 == list.last().0;
                assert(list[i].0 == list[list.len() - 1].0);
            }
        }
    }
}

/// A state graph as plain lists, for storing it or sending it on.
#[derive(Clone, Debug, PartialEq, Eq)]
pub struct GraphParts<PS> {
    /// Each state with its id.
    pub nodes: Vec<(PS, u32)>,
    /// The keys of the edges.
    pub edges: Vec<u64>,
    /// The node of the state recorded last in the current run.
    pub last_node: Option<u32>,
    /// Whether the current run added a transition.
    pub new_transitions: bool,
}

impl<PS> GraphParts<PS> {
    /// Whether the lists are those of a well-formed graph: no state and
    /// no id is listed twice, the ids are below the number of states, no
    /// edge is listed twice, every edge joins two different nodes, and the
    /// last node is one of the graph.
    pub open spec fn valid(self) -> bool {
        &&& forall|i: int|
            0 <= i < self.nodes@.len() ==> ((#[trigger] self.nodes@[i]).1 as nat)
                < self.nodes@.len()
        &&& forall|i: int, j: int|
            0 <= i < j < self.nodes@.len() ==> (#[trigger] self.nodes@[i]).0 != (
            #[trigger] self.nodes@[j]).0 && self.nodes@[i].1 != self.nodes@[j].1
        &&& self.edges@.no_duplicates()
        &&& forall|k: int|
            0 <= k < self.edges@.len() ==> {
                &&& transition_ends(#[trigger] self.edges@[k]).0 != transition_ends(
                    self.edges@[k],
                ).1
                &&& (transition_ends(self.edges@[k]).0 as nat) < self.nodes@.len()
                &&& (transition_ends(self.edges@[k]).1 as nat) < self.nodes@.len()
            }
        &&& self.last_node matches Some(id) ==> (id as nat) < self.nodes@.len()
    }

    /// The graph that the lists stand for.
    pub open spec fn graph(self) -> GraphView<PS> {
        GraphView {
            nodes: nodes_map(self.nodes@),
            edges: self.edges@.to_set(),
            last_node: self.last_node,
            new_transitions: self.new_transitions,
        }
    }
}

/// A directed graph over the states of type `PS`.
#[derive(Debug)]
#[verifier::reject_recursive_types(PS)]
pub struct StateGraph<PS> {
    nodes: HashMap<PS, u32, RandomState>,
    edges: HashSet<u64, RandomState>,
    last_node: Option<u32>,
    new_transitions: bool,
}

impl<PS> View for StateGraph<PS> {
    type V = GraphView<PS>;

    closed spec fn view(&self) -> GraphView<PS> {
        GraphView {
            nodes: self.nodes@,
            edges: self.edges@,
            last_node: self.last_node,
            new_transitions: self.new_transitions,
        }
    }
}

impl<PS: Eq + Hash + Copy> StateGraph<PS> {
    /// The graph is well formed, and its collections hash their keys in a
    /// way that lets them be found again.
    pub open spec fn wf(&self) -> bool {
        &&& obeys_key_model::<PS>()
        &&& builds_valid_hashers::<RandomState>()
        &&& self@.wf()
    }

    /// An empty graph. The states must hash and compare by their value,
    /// as integers and arrays and tuples of them do.
    pub fn new() -> (graph: Self)
        requires
            obeys_key_model::<PS>(),
        ensures
            graph@ == GraphView::<PS>::empty(),
            graph.wf(),
    {
        let nodes: HashMap<PS, u32, RandomState> = HashMap::with_hasher(hash_state());
        let edges: HashSet<u64, RandomState> = HashSet::with_hasher(hash_state());
        assert(nodes@ =~= Map::empty());
        StateGraph { nodes, edges, last_node: None, new_transitions: false }
    }

    /// Clears the marks of the current run.
    pub fn reset(&mut self)
        requires
            old(self).wf(),
        ensures
            final(self)@ == old(self)@.reset(),
            final(self).wf(),
    {
        self.last_node = None;
        self.new_transitions = false;
    }

    /// Makes `state` a node of the graph and returns its id.
    pub fn add_node(&mut self, state: &PS) -> (id: u32)
        requires
            old(self).wf(),
            old(self)@.can_record(*state),
        ensures
            final(self)@ == old(self)@.add_node(*state),
            id == old(self)@.node_id(*state),
            final(self).wf(),
    {
        broadcast use vstd::std_specs::hash::group_hash_axioms;

        match self.nodes.get(state) {
            Some(id) => *id,
            None => {
                let next_id = self.nodes.len() as u32;
                self.nodes.insert(*state, next_id);
                next_id
            },
        }
    }

    /// Moves the run on to node `id`.
    pub fn add_edge(&mut self, id: u32)
        requires
            old(self).wf(),
            (id as nat) < old(self)@.nodes.len(),
        ensures
            final(self)@ == old(self)@.add_edge(id),
            final(self).wf(),
    {
        broadcast use vstd::std_specs::hash::group_hash_axioms;

        match self.last_node {
            Some(old_id) => {
                if old_id != id {
                    proof {
                        lemma_pack_unpack(old_id, id);
                    }
                    let added = self.edges.insert(pack_transition(old_id, id));
                    self.new_transitions = self.new_transitions || added;
                }
            },
            None => {},
        }
        self.last_node = Some(id);
    }

    /// The keys of the edges, each once, in the order in which the set hands
    /// them out.
    pub fn edge_keys(&self) -> (keys: Vec<u64>)
        requires
            self.wf(),
        ensures
            keys@.no_duplicates(),
            keys@.to_set() == self@.edges,
    {
        broadcast use vstd::std_specs::hash::group_hash_axioms;

        let mut keys: Vec<u64> = Vec::new();
        for key in walk: self.edges.iter()
            invariant
                keys@.len() == walk.index(),
                forall|i: int| 0 <= i < keys@.len() ==> keys@[i] == *walk.seq()[i],
        {
            keys.push(*key);
        }
        proof {
            let handed = vstd::std_specs::hash::spec_hash_keys_iter(&self.edges).remaining();
            assert(handed.unref().to_set() == self.edges@);
            assert(handed.no_duplicates());
            assert(keys@ =~= handed.unref());
        }
        keys
    }

    /// Each state with its id, in the order in which the map hands them out.
    pub fn node_list(&self) -> (nodes: Vec<(PS, u32)>)
        requires
            self.wf(),
        ensures
            nodes@.len() == self@.nodes.len(),
            forall|i: int|
                0 <= i < nodes@.len() ==> self@.nodes.contains_key((#[trigger] nodes@[i]).0)
                    && self@.nodes[nodes@[i].0] == nodes@[i].1,
            forall|i: int, j: int|
                0 <= i < j < nodes@.len() ==> (#[trigger] nodes@[i]).0 != (#[trigger] nodes@[j]).0,
            forall|s: PS| #[trigger]
                self@.nodes.contains_key(s) ==> exists|i: int|
                    0 <= i < nodes@.len() && #[trigger] nodes@[i].0 == s,
    {
        broadcast use vstd::std_specs::hash::group_hash_axioms;

        let mut nodes: Vec<(PS, u32)> = Vec::new();
        for pair in walk: self.nodes.iter()
            invariant
                nodes@.len() == walk.index(),
                forall|i: int|
                    0 <= i < nodes@.len() ==> (#[trigger] nodes@[i]).0 == *walk.seq()[i].0
                        && nodes@[i].1 == *walk.seq()[i].1,
        {
            let (state, id) = pair;
            nodes.push((*state, *id));
        }
        proof {
            let handed = vstd::std_specs::hash::spec_hash_map_iter(&self.nodes).remaining();
            assert(handed.len() == self.nodes@.dom().len());
            assert(handed.no_duplicates());
            assert forall|i: int| 0 <= i < nodes@.len() implies self@.nodes.contains_key(
                (#[trigger] nodes@[i]).0,
            ) && self@.nodes[nodes@[i].0] == nodes@[i].1 by {
                assert(self.nodes@.contains_key(*handed[i].0));
            }
            assert forall|i: int, j: int| 0 <= i < j < nodes@.len() implies (
            #[trigger] nodes@[i]).0 != (#[trigger] nodes@[j]).0 by {
                assert(self.nodes@.contains_key(*handed[i].0));
                assert(self.nodes@.contains_key(*handed[j].0));
                if nodes@[i].0 == nodes@[j].0 {
                    assert(handed[i] == handed[j]);
                }
            }
            assert forall|s: PS| #[trigger] self@.nodes.contains_key(s) implies exists|i: int|
                0 <= i < nodes@.len() && #[trigger] nodes@[i].0 == s by {
                assert(handed.contains((&s, &self.nodes@[s])));
                let i = choose|i: int| 0 <= i < handed.len() && handed[i] == (&s, &self.nodes@[s]);
                assert(nodes@[i].0 == s);
            }
        }
        nodes
    }

    /// The graph as plain lists.
    pub fn to_parts(&self) -> (parts: GraphParts<PS>)
        requires
            self.wf(),
        ensures
            parts.valid(),
            parts.graph() == self@,
    {
        let nodes = self.node_list();
        let edges = self.edge_keys();
        let parts = GraphParts {
            nodes,
            edges,
            last_node: self.last_node,
            new_transitions: self.new_transitions,
        };
        proof {
            lemma_nodes_map(parts.nodes@);
            assert(nodes_map(parts.nodes@) =~= self.nodes@) by {
                assert forall|s: PS| nodes_map(parts.nodes@).contains_key(s) implies #[trigger]
                    self.nodes@.contains_key(s) by {
                    let i = choose|i: int|
                        0 <= i < parts.nodes@.len() && #[trigger] parts.nodes@[i].0 == s;
                    assert(self@.nodes.contains_key(parts.nodes@[i].0));
                }
                assert forall|s: PS| #[trigger] self.nodes@.contains_key(s) implies nodes_map(
                    parts.nodes@,
                ).contains_key(s) && nodes_map(parts.nodes@)[s] == self.nodes@[s] by {
                    assert(self@.nodes.contains_key(s));
                    let i = choose|i: int|
                        0 <= i < parts.nodes@.len() && #[trigger] parts.nodes@[i].0 == s;
                    assert(nodes_map(parts.nodes@).contains_key(parts.nodes@[i].0));
                    assert(self@.nodes[parts.nodes@[i].0] == parts.nodes@[i].1);
                }
            }
            assert forall|i: int, j: int| 0 <= i < j < parts.nodes@.len() implies (
            #[trigger] parts.nodes@[i]).1 != (#[trigger] parts.nodes@[j]).1 by {
                assert(self@.nodes.contains_key(parts.nodes@[i].0));
                assert(self@.nodes.contains_key(parts.nodes@[j].0));
            }
            assert forall|i: int| 0 <= i < parts.nodes@.len() implies ((
            #[trigger] parts.nodes@[i]).1 as nat) < parts.nodes@.len() by {
                assert(self@.nodes.contains_key(parts.nodes@[i].0));
            }
            assert forall|k: int| 0 <= k < parts.edges@.len() implies {
                &&& transition_ends(#[trigger] parts.edges@[k]).0 != transition_ends(
                    parts.edges@[k],
                ).1
                &&& (transition_ends(parts.edges@[k]).0 as nat) < parts.nodes@.len()
                &&& (transition_ends(parts.edges@[k]).1 as nat) < parts.nodes@.len()
            } by {
                assert(parts.edges@.to_set().contains(parts.edges@[k]));
                assert(self@.edges.contains(parts.edges@[k]));
            }
        }
        parts
    }

    /// The graph that the lists of `parts` stand for, if they are those
    /// of a well-formed graph.
    pub fn from_parts(parts: GraphParts<PS>) -> (graph: Option<Self>)
        requires
            obeys_key_model::<PS>(),
        ensures
            graph is Some <==> parts.valid(),
            graph matches Some(graph) ==> graph.wf() && graph@ == parts.graph(),
    {
        broadcast use vstd::std_specs::hash::group_hash_axioms;

        let count = parts.nodes.len();
        let mut nodes: HashMap<PS, u32, RandomState> = HashMap::with_hasher(hash_state());
        let mut edges: HashSet<u64, RandomState> = HashSet::with_hasher(hash_state());
        let mut seen: Vec<bool> = Vec::new();
        let mut i: usize = 0;
        while i < count
            invariant
                i <= count,
                seen@.len() == i,
                forall|k: int| 0 <= k < i ==> !seen@[k],
            decreases count - i,
        {
            seen.push(false);
            i = i + 1;
        }
        assert(nodes@ =~= nodes_map(parts.nodes@.take(0)));
        let mut i: usize = 0;
        while i < count
            invariant
                i <= count,
                count == parts.nodes@.len(),
                seen@.len() == count,
                builds_valid_hashers::<RandomState>(),
                obeys_key_model::<PS>(),
                nodes@ == nodes_map(parts.nodes@.take(i as int)),
                forall|a: int, b: int|
                    0 <= a < b < i ==> (#[trigger] parts.nodes@[a]).0 != (
                    #[trigger] parts.nodes@[b]).0 && parts.nodes@[a].1 != parts.nodes@[b].1,
                forall|a: int| 0 <= a < i ==> ((#[trigger] parts.nodes@[a]).1 as nat) < count,
                forall|x: int|
                    0 <= x < count ==> (#[trigger] seen@[x] <==> exists|a: int|
                        0 <= a < i && (#[trigger] parts.nodes@[a]).1 == x),
            decreases count - i,
        {
            let (state, id) = parts.nodes[i];
            let ghost front = parts.nodes@.take(i as int);
            proof {
                assert forall|a: int, b: int| 0 <= a < b < front.len() implies front[a].0
                    != front[b].0 by {
                    assert(front[a] == parts.nodes@[a] && front[b] == parts.nodes@[b]);
                }
                lemma_nodes_map(front);
                assert(parts.nodes@.take(i + 1).drop_last() =~= front);
            }
            if id as usize >= count {
                assert(!((parts.nodes@[i as int].1 as nat) < parts.nodes@.len()));
                return None;
            }
            if seen[id as usize] {
                proof {
                    let a = choose|a: int| 0 <= a < i && (#[trigger] parts.nodes@[a]).1 == id;
                    assert(parts.nodes@[a].1 == parts.nodes@[i as int].1);
                }
                return None;
            }
            if nodes.contains_key(&state) {
                proof {
                    let a = choose|a: int| 0 <= a < front.len() && #[trigger] front[a].0 == state;
                    assert(front[a] == parts.nodes@[a]);
                    assert(parts.nodes@[a].0 == parts.nodes@[i as int].0);
                }
                return None;
            }
            proof {
                assert forall|a: int| 0 <= a < i implies (#[trigger] parts.nodes@[a]).0 != state
                    && parts.nodes@[a].1 != id by {
                    assert(front[a] == parts.nodes@[a]);
                    assert(nodes_map(front).contains_key(front[a].0));
                }
            }
            nodes.insert(state, id);
            seen.set(id as usize, true);
            proof {
                assert forall|x: int| 0 <= x < count implies (#[trigger] seen@[x] <==> exists|
                    a: int,
                | 0 <= a < i + 1 && (#[trigger] parts.nodes@[a]).1 == x) by {
                    if x == id {
                        assert(parts.nodes@[i as int].1 == x);
                    } else if seen@[x] {
                        let a = choose|a: int|
                            0 <= a < i && (#[trigger] parts.nodes@[a]).1 == x;
                        assert(0 <= a < i + 1 && parts.nodes@[a].1 == x);
                    } else if exists|a: int|
                        0 <= a < i + 1 && (#[trigger] parts.nodes@[a]).1 == x {
                        let a = choose|a: int|
                            0 <= a < i + 1 && (#[trigger] parts.nodes@[a]).1 == x;
                        assert(a < i);
                    }
                }
            }
            i = i + 1;
        }
        proof {
            assert(parts.nodes@.take(i as int) =~= parts.nodes@);
            lemma_nodes_map(parts.nodes@);
        }
        let mut k: usize = 0;
        assert(edges@ =~= parts.edges@.take(0).to_set());
        while k < parts.edges.len()
            invariant
                k <= parts.edges@.len(),
                count == parts.nodes@.len(),
                builds_valid_hashers::<RandomState>(),
                edges@ == parts.edges@.take(k as int).to_set(),
                parts.edges@.take(k as int).no_duplicates(),
                forall|a: int|
                    0 <= a < k ==> {
                        &&& transition_ends(#[trigger] parts.edges@[a]).0 != transition_ends(
                            parts.edges@[a],
                        ).1
                        &&& (transition_ends(parts.edges@[a]).0 as nat) < count
                        &&& (transition_ends(parts.edges@[a]).1 as nat) < count
                    },
            decreases parts.edges@.len() - k,
        {
            let key = parts.edges[k];
            let (from, to) = unpack_transition(key);
            if from == to || from as usize >= count || to as usize >= count {
                assert(!parts.valid());
                return None;
            }
            let ghost done = parts.edges@.take(k as int);
            let added = edges.insert(key);
            if !added {
                proof {
                    assert(done.contains(key));
                    let a = choose|a: int| 0 <= a < done.len() && done[a] == key;
                    assert(parts.edges@[a] == parts.edges@[k as int]);
                }
                return None;
            }
            proof {
                assert(parts.edges@.take(k + 1) =~= done.push(key));
                done.lemma_push_to_set_commute(key);
                let next = parts.edges@.take(k + 1);
                assert forall|a: int, b: int|
                    0 <= a < next.len() && 0 <= b < next.len() && a != b implies next[a]
                    != next[b] by {
                    if a == k {
                        assert(done.contains(done[b]));
                    } else if b == k {
                        assert(done.contains(done[a]));
                    } else {
                        assert(done[a] != done[b]);
                    }
                }
            }
            k = k + 1;
        }
        proof {
            assert(parts.edges@.take(k as int) =~= parts.edges@);
        }
        match parts.last_node {
            Some(id) => {
                if id as usize >= count {
                    return None;
                }
            },
            None => {},
        }
        let graph = StateGraph {
            nodes,
            edges,
            last_node: parts.last_node,
            new_transitions: parts.new_transitions,
        };
        proof {
            assert(graph@ == parts.graph());
            assert(graph@.edges.finite()) by {
                vstd::seq_lib::seq_to_set_is_finite(parts.edges@);
            }
            assert forall|s: PS| #[trigger] graph@.nodes.contains_key(s) implies (
            graph@.nodes[s] as nat) < graph@.nodes.len() by {
                let a = choose|a: int|
                    0 <= a < parts.nodes@.len() && #[trigger] parts.nodes@[a].0 == s;
                assert(graph@.nodes[parts.nodes@[a].0] == parts.nodes@[a].1);
            }
            assert forall|s: PS, t: PS|
                graph@.nodes.contains_key(s) && graph@.nodes.contains_key(t) && s
                    != t implies #[trigger] graph@.nodes[s] != #[trigger] graph@.nodes[t] by {
                let a = choose|a: int|
                    0 <= a < parts.nodes@.len() && #[trigger] parts.nodes@[a].0 == s;
                let b = choose|b: int|
                    0 <= b < parts.nodes@.len() && #[trigger] parts.nodes@[b].0 == t;
                assert(graph@.nodes[parts.nodes@[a].0] == parts.nodes@[a].1);
                assert(graph@.nodes[parts.nodes@[b].0] == parts.nodes@[b].1);
                if a < b {
                    assert(parts.nodes@[a].1 != parts.nodes@[b].1);
                } else {
                    assert(parts.nodes@[b].1 != parts.nodes@[a].1);
                }
            }
            assert forall|e: u64| #[trigger] graph@.edges.contains(e) implies {
                &&& transition_ends(e).0 != transition_ends(e).1
                &&& (transition_ends(e).0 as nat) < graph@.nodes.len()
                &&& (transition_ends(e).1 as nat) < graph@.nodes.len()
            } by {
                let a = choose|a: int| 0 <= a < parts.edges@.len() && parts.edges@[a] == e;
                assert(transition_ends(parts.edges@[a]).0 != transition_ends(parts.edges@[a]).1);
            }
        }
        Some(graph)
    }

    /// Appends the graph as DOT text. The vertices are labelled by node id;
    /// the edges come in the order of [`Self::edge_keys`].
    pub fn write_dot(&self, stream: &mut String)
        requires
            self.wf(),
        ensures
            exists|keys: Seq<u64>|
                keys.no_duplicates() && keys.to_set() == self@.edges && final(stream)@ == old(
                    stream,
                )@ + #[trigger] dot_text(keys),
    {
        let keys = self.edge_keys();
        write_dot(stream, &keys);
    }
}

/// Builds the state graph of one fuzzer instance from the states that the
/// executor reports.
#[derive(Debug)]
#[verifier::reject_recursive_types(PS)]
pub struct StateObserver<PS> {
    name: String,
    graph: StateGraph<PS>,
}

impl<PS> View for StateObserver<PS> {
    type V = GraphView<PS>;

    closed spec fn view(&self) -> GraphView<PS> {
        self.graph@
    }
}

impl<PS: Eq + Hash + Copy> StateObserver<PS> {
    /// The observer's graph is well formed.
    pub closed spec fn wf(&self) -> bool {
        self.graph.wf()
    }

    /// The name under which the observer is found.
    pub closed spec fn spec_name(&self) -> Seq<char> {
        self.name@
    }

    /// A well-formed observer has a well-formed graph.
    pub proof fn lemma_wf(&self)
        requires
            self.wf(),
        ensures
            self@.wf(),
    {
    }

    /// An observer with an empty graph. The states must hash and compare
    /// by their value, as integers and arrays and tuples of them do.
    pub fn new(name: &'static str) -> (observer: Self)
        requires
            obeys_key_model::<PS>(),
        ensures
            observer.wf(),
            observer@ == GraphView::<PS>::empty(),
            observer.spec_name() == name@,
    {
        StateObserver { name: String::from_str(name), graph: StateGraph::new() }
    }

    /// The observer with the graph that the lists of `parts` stand for,
    /// if they are those of a well-formed graph.
    pub fn from_parts(name: &str, parts: GraphParts<PS>) -> (observer: Option<Self>)
        requires
            obeys_key_model::<PS>(),
        ensures
            observer is Some <==> parts.valid(),
            observer matches Some(observer) ==> observer.wf() && observer@ == parts.graph()
                && observer.spec_name() == name@,
    {
        match StateGraph::from_parts(parts) {
            Some(graph) => Some(StateObserver { name: String::from_str(name), graph }),
            None => None,
        }
    }

    /// The observer's graph as plain lists.
    pub fn to_parts(&self) -> (parts: GraphParts<PS>)
        requires
            self.wf(),
        ensures
            parts.valid(),
            parts.graph() == self@,
    {
        self.graph.to_parts()
    }

    /// Whether `state` can be recorded: it is a node already, or there is
    /// an id left for it.
    pub fn can_record(&self, state: &PS) -> (can: bool)
        requires
            self.wf(),
        ensures
            can == self@.can_record(*state),
    {
        broadcast use vstd::std_specs::hash::group_hash_axioms;

        self.graph.nodes.contains_key(state) || self.graph.nodes.len() <= u32::MAX as usize
    }

    /// Whether there are ids left for `more` new states.
    pub fn has_room_for(&self, more: usize) -> (room: bool)
        requires
            self.wf(),
        ensures
            room == (self@.nodes.len() + more <= u32::MAX + 1),
    {
        broadcast use vstd::std_specs::hash::group_hash_axioms;

        let nodes = self.graph.nodes.len() as u64;
        let limit: u64 = u32::MAX as u64 + 1;
        nodes <= limit && more as u64 <= limit - nodes
    }

    /// Tells the observer that the target has entered `state`.
    pub fn record(&mut self, state: &PS)
        requires
            old(self).wf(),
            old(self)@.can_record(*state),
        ensures
            final(self).wf(),
            final(self)@ == old(self)@.record(*state),
            final(self).spec_name() == old(self).spec_name(),
            old(self)@.nodes.submap_of(final(self)@.nodes),
            old(self)@.edges.subset_of(final(self)@.edges),
    {
        let node = self.graph.add_node(state);
        self.graph.add_edge(node);
    }

    /// Whether the current run has added an edge to the graph.
    pub fn had_new_transitions(&self) -> (new_transitions: bool)
        ensures
            new_transitions == self@.new_transitions,
    {
        self.graph.new_transitions
    }

    /// The number of nodes and the number of edges.
    pub fn info(&self) -> (counts: (usize, usize))
        requires
            self.wf(),
        ensures
            counts.0 == self@.nodes.len(),
            counts.1 == self@.edges.len(),
    {
        broadcast use vstd::std_specs::hash::group_hash_axioms;

        (self.graph.nodes.len(), self.graph.edges.len())
    }

    /// The graph as DOT text, its edges in some order, each once.
    pub fn get_statemachine(&self) -> (text: String)
        requires
            self.wf(),
        ensures
            exists|keys: Seq<u64>|
                keys.no_duplicates() && keys.to_set() == self@.edges && text@ == #[trigger] dot_text(
                    keys,
                ),
    {
        let mut text = String::new();
        self.graph.write_dot(&mut text);
        text
    }

    /// The name that the observer was made with.
    pub fn name(&self) -> (name: &str)
        ensures
            name@ == self.spec_name(),
    {
        self.name.as_str()
    }

    /// Starts a run: the per-run marks are cleared, nodes and edges stay.
    pub fn pre_exec(&mut self)
        requires
            old(self).wf(),
        ensures
            final(self).wf(),
            final(self)@ == old(self)@.reset(),
            final(self).spec_name() == old(self).spec_name(),
            old(self)@.nodes.submap_of(final(self)@.nodes),
            old(self)@.edges.subset_of(final(self)@.edges),
    {
        self.graph.reset();
    }
}

} // verus!
