//! The statistics that the state feedback reports to the monitor.

use vstd::prelude::*;

verus! {

/// The name of the statistic that holds the number of nodes of the state graph.
pub const USER_STAT_NODES: &'static str = "butterfly_state_nodes";

/// The name of the statistic that holds the number of edges of the state graph.
pub const USER_STAT_EDGES: &'static str = "butterfly_state_edges";

/// The name of the statistic that holds the state graph as DOT text.
pub const USER_STAT_STATEGRAPH: &'static str = "butterfly_state_graph";

/// How the values that the clients report for one statistic are combined.
#[derive(Clone, Copy, Debug, PartialEq, Eq, Structural)]
pub enum AggregatorOps {
    /// The values are not combined.
    Unaggregated,
    /// The greatest value counts.
    Max,
}

/// The value of a statistic.
#[derive(Debug)]
pub enum UserStatsValue {
    /// A count.
    Number(u64),
    /// A text.
    String(String),
}

/// One report to the monitor: the value of a named statistic.
#[derive(Debug)]
pub struct UserStats {
    /// The statistic's name.
    pub name: &'static str,
    /// Its value.
    pub value: UserStatsValue,
    /// How the monitor combines the clients' values.
    pub aggregator: AggregatorOps,
}

} // verus!
