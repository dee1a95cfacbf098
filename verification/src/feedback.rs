//! The feedback that finds an input interesting when its run added an edge
//! to the state graph.

use vstd::prelude::*;
use std::hash::Hash;
use std::marker::PhantomData;
use crate::dot::dot_text;
use crate::event::AggregatorOps;
use crate::event::UserStats;
use crate::event::UserStatsValue;
use crate::event::USER_STAT_EDGES;
use crate::event::USER_STAT_NODES;
use crate::event::USER_STAT_STATEGRAPH;
use crate::observer::GraphView;
use crate::observer::StateObserver;

verus! {

/// The reports that are due after a run that left the graph `graph`: none
/// where the run added no edge; else the number of nodes, then the number
/// of edges, then, where `graphviz` is set, the graph as DOT text.
pub open spec fn reports_of<PS>(graph: GraphView<PS>, graphviz: bool, reports: Seq<
    UserStats,
>) -> bool {
    if !graph.new_transitions {
        reports.len() == 0
    } else {
        &&& reports.len() == if graphviz {
            3nat
        } else {
            2nat
        }
        &&& reports[0].name == USER_STAT_NODES
        &&& reports[0].value == UserStatsValue::Number(graph.nodes.len() as u64)
        &&& reports[0].aggregator == AggregatorOps::Max
        &&& reports[1].name == USER_STAT_EDGES
        &&& reports[1].value == UserStatsValue::Number(graph.edges.len() as u64)
        &&& reports[1].aggregator == AggregatorOps::Max
        &&& graphviz ==> {
            &&& reports[2].name == USER_STAT_STATEGRAPH
            &&& reports[2].aggregator == AggregatorOps::Unaggregated
            &&& reports[2].value matches UserStatsValue::String(text)
            &&& exists|keys: Seq<u64>|
                keys.no_duplicates() && keys.to_set() == graph.edges && text@ == #[trigger] dot_text(
                    keys,
                )
        }
    }
}

/// Finds an input interesting if its run led to new transitions in the
/// state graph of one observer.
#[derive(Debug)]
pub struct StateFeedback<PS> {
    observer_name: String,
    phantom: PhantomData<PS>,
}

impl<PS: Eq + Hash + Copy> StateFeedback<PS> {
    /// The name of the observer that the feedback looks at.
    pub closed spec fn spec_observer_name(&self) -> Seq<char> {
        self.observer_name@
    }

    /// A feedback for the given observer.
    pub fn new(observer: &StateObserver<PS>) -> (feedback: Self)
        ensures
            feedback.spec_observer_name() == observer.spec_name(),
    {
        StateFeedback { observer_name: String::from_str(observer.name()), phantom: PhantomData }
    }

    /// The name of the observer that the feedback looks at.
    pub fn observer_name(&self) -> (name: &str)
        ensures
            name@ == self.spec_observer_name(),
    {
        self.observer_name.as_str()
    }

    /// The feedback's own name.
    pub fn name(&self) -> (name: &'static str)
        ensures
            name@ == "StateFeedback"@,
    {
        "StateFeedback"
    }

    /// Judges the run that `observer` has just seen: the input is
    /// interesting exactly if the run added an edge. With it come the
    /// reports for the monitor, in the order in which they are to be sent.
    pub fn is_interesting(&mut self, observer: &StateObserver<PS>, graphviz: bool) -> (verdict: (
        bool,
        Vec<UserStats>,
    ))
        requires
            observer.wf(),
            observer.spec_name() == old(self).spec_observer_name(),
        ensures
            final(self).spec_observer_name() == old(self).spec_observer_name(),
            verdict.0 == observer@.new_transitions,
            reports_of(observer@, graphviz, verdict.1@),
    {
        let ret = observer.had_new_transitions();
        let mut reports: Vec<UserStats> = Vec::new();
        if ret {
            let (nodes, edges) = observer.info();
            reports.push(
                UserStats {
                    name: USER_STAT_NODES,
                    value: UserStatsValue::Number(nodes as u64),
                    aggregator: AggregatorOps::Max,
                },
            );
            reports.push(
                UserStats {
                    name: USER_STAT_EDGES,
                    value: UserStatsValue::Number(edges as u64),
                    aggregator: AggregatorOps::Max,
                },
            );
            if graphviz {
                reports.push(
                    UserStats {
                        name: USER_STAT_STATEGRAPH,
                        value: UserStatsValue::String(observer.get_statemachine()),
                        aggregator: AggregatorOps::Unaggregated,
                    },
                );
            }
        }
        (ret, reports)
    }
}

} // verus!
