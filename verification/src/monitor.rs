//! What a monitor shows of the state graphs of all clients.

use vstd::prelude::*;
use crate::event::USER_STAT_EDGES;
use crate::event::USER_STAT_NODES;
use crate::text::same_text;

verus! {

/// What one client has reported so far.
#[derive(Debug)]
pub struct ClientStats {
    /// The size of its corpus.
    pub corpus_size: u64,
    /// The number of its objectives.
    pub objective_size: u64,
    /// The number of its executions.
    pub executions: u64,
    /// The number of nodes of its state graph, once reported.
    pub state_nodes: Option<u64>,
    /// The number of edges of its state graph, once reported.
    pub state_edges: Option<u64>,
    /// Its state graph as DOT text, once reported.
    pub state_graph: Option<String>,
}

/// An average over the clients, kept exact: the sum of the reported values
/// and the number of clients that it is divided by.
#[derive(Clone, Copy, Debug, PartialEq, Eq, Structural)]
pub struct Average {
    /// The sum of the values.
    pub sum: u64,
    /// The number of clients.
    pub clients: usize,
}

/// What `client` has reported under the name `stat`, if it is one of the
/// two counts of the state graph.
pub open spec fn stat_of(client: ClientStats, stat: Seq<char>) -> Option<u64> {
    if stat == USER_STAT_NODES@ {
        client.state_nodes
    } else if stat == USER_STAT_EDGES@ {
        client.state_edges
    } else {
        None
    }
}

/// The sum of a number that each client holds.
pub open spec fn total(clients: Seq<ClientStats>, number: spec_fn(ClientStats) -> nat) -> nat
    decreases clients.len(),
{
    if clients.len() == 0 {
        0
    } else {
        total(clients.drop_last(), number) + number(clients.last())
    }
}

/// The sum of what the clients have reported under the name `stat`; a
/// client that has reported nothing counts as zero.
pub open spec fn stat_sum(clients: Seq<ClientStats>, stat: Seq<char>) -> nat {
    total(
        clients,
        |client: ClientStats|
            match stat_of(client, stat) {
                Some(value) => value as nat,
                None => 0nat,
            },
    )
}

/// The number of cores that are fuzzing: one client is the broker.
pub open spec fn cores_of(clients: nat) -> nat {
    if clients <= 2 {
        1
    } else {
        (clients - 1) as nat
    }
}

/// A sum grows with each client that is added.
pub proof fn lemma_total_grows(
    clients: Seq<ClientStats>,
    number: spec_fn(ClientStats) -> nat,
    upto: int,
)
    requires
        0 <= upto <= clients.len(),
    ensures
        total(clients.take(upto), number) <= total(clients, number),
    decreases clients.len() - upto,
{
    if upto < clients.len() {
        lemma_total_grows(clients.drop_last(), number, upto);
        assert(clients.drop_last().take(upto) =~= clients.take(upto));
    } else {
        assert(clients.take(upto) =~= clients);
    }
}

/// The number that `client` has reported under the name `stat`.
pub fn client_stat(client: &ClientStats, stat: &str) -> (value: Option<u64>)
    ensures
        value == stat_of(*client, stat@),
{
    if same_text(stat, USER_STAT_NODES) {
        client.state_nodes
    } else if same_text(stat, USER_STAT_EDGES) {
        client.state_edges
    } else {
        None
    }
}

/// Adds up the statistics about the state graph over all clients.
pub trait HasStateStats: Sized {
    /// The average of what the clients have reported under the name
    /// `stat`, or nothing where the sum is beyond 64 bits.
    fn calculate_average(&mut self, stat: &str, clients: &Vec<ClientStats>) -> (average: Option<
        Average,
    >)
        ensures
            *final(self) == *old(self),
            match average {
                Some(average) => average.sum == stat_sum(clients@, stat@) && average.clients
                    == clients.len(),
                None => stat_sum(clients@, stat@) > u64::MAX,
            },
    {
        let number = Ghost(
            |client: ClientStats|
                match stat_of(client, stat@) {
                    Some(value) => value as nat,
                    None => 0nat,
                },
        );
        let mut sum: u64 = 0;
        let mut i: usize = 0;
        while i < clients.len()
            invariant
                i <= clients.len(),
                sum == total(clients@.take(i as int), number@),
                number@ == |client: ClientStats|
                    match stat_of(client, stat@) {
                        Some(value) => value as nat,
                        None => 0nat,
                    },
            decreases clients.len() - i,
        {
            let value = match client_stat(&clients[i], stat) {
                Some(value) => value,
                None => 0,
            };
            proof {
                assert(clients@.take(i + 1).drop_last() =~= clients@.take(i as int));
                assert(total(clients@.take(i + 1), number@) == sum + value);
                lemma_total_grows(clients@, number@, i + 1);
            }
            match sum.checked_add(value) {
                Some(more) => {
                    sum = more;
                },
                None => {
                    return None;
                },
            }
            i = i + 1;
        }
        assert(clients@.take(i as int) =~= clients@);
        Some(Average { sum, clients: clients.len() })
    }

    /// The average number of nodes of the state graphs of all clients.
    fn avg_statemachine_nodes(&mut self, clients: &Vec<ClientStats>) -> (average: Option<Average>)
        ensures
            *final(self) == *old(self),
            match average {
                Some(average) => average.sum == stat_sum(clients@, USER_STAT_NODES@)
                    && average.clients == clients.len(),
                None => stat_sum(clients@, USER_STAT_NODES@) > u64::MAX,
            },
    {
        self.calculate_average(USER_STAT_NODES, clients)
    }

    /// The average number of edges of the state graphs of all clients.
    fn avg_statemachine_edges(&mut self, clients: &Vec<ClientStats>) -> (average: Option<Average>)
        ensures
            *final(self) == *old(self),
            match average {
                Some(average) => average.sum == stat_sum(clients@, USER_STAT_EDGES@)
                    && average.clients == clients.len(),
                None => stat_sum(clients@, USER_STAT_EDGES@) > u64::MAX,
            },
    {
        self.calculate_average(USER_STAT_EDGES, clients)
    }
}

/// The numbers that one line of the monitor shows.
#[derive(Clone, Copy, Debug, PartialEq, Eq, Structural)]
pub struct DisplayLine {
    /// The seconds since the monitor was started.
    pub uptime: u64,
    /// The number of cores that are fuzzing.
    pub cores: usize,
    /// The corpus sizes of all clients, added up.
    pub corpus_size: u64,
    /// The objectives of all clients, added up.
    pub objective_size: u64,
    /// The executions of all clients, added up.
    pub executions: u64,
    /// The average number of nodes of the state graphs.
    pub nodes: Average,
    /// The average number of edges of the state graphs.
    pub edges: Average,
}

/// The line that is due `uptime` seconds after the start, given what the
/// clients have reported.
pub open spec fn line_of(clients: Seq<ClientStats>, uptime: u64) -> DisplayLine {
    DisplayLine {
        uptime,
        cores: cores_of(clients.len()) as usize,
        corpus_size: total(clients, |client: ClientStats| client.corpus_size as nat) as u64,
        objective_size: total(clients, |client: ClientStats| client.objective_size as nat) as u64,
        executions: total(clients, |client: ClientStats| client.executions as nat) as u64,
        nodes: Average {
            sum: stat_sum(clients, USER_STAT_NODES@) as u64,
            clients: clients.len() as usize,
        },
        edges: Average {
            sum: stat_sum(clients, USER_STAT_EDGES@) as u64,
            clients: clients.len() as usize,
        },
    }
}

/// Whether every sum of a line over `clients` fits into 64 bits.
pub open spec fn line_fits(clients: Seq<ClientStats>) -> bool {
    &&& total(clients, |client: ClientStats| client.corpus_size as nat) <= u64::MAX
    &&& total(clients, |client: ClientStats| client.objective_size as nat) <= u64::MAX
    &&& total(clients, |client: ClientStats| client.executions as nat) <= u64::MAX
    &&& stat_sum(clients, USER_STAT_NODES@) <= u64::MAX
    &&& stat_sum(clients, USER_STAT_EDGES@) <= u64::MAX
}

/// The greatest corpus size among `clients`, zero where there is none.
pub open spec fn greatest_corpus(clients: Seq<ClientStats>) -> u64
    decreases clients.len(),
{
    if clients.len() == 0 {
        0
    } else if greatest_corpus(clients.drop_last()) < clients.last().corpus_size {
        clients.last().corpus_size
    } else {
        greatest_corpus(clients.drop_last())
    }
}

/// Which of the three counters of a client a sum runs over.
#[derive(Clone, Copy, Debug, PartialEq, Eq, Structural)]
enum Counter {
    Corpus,
    Objectives,
    Executions,
}

/// The value of one counter of `client`.
spec fn counter_of(client: ClientStats, counter: Counter) -> nat {
    match counter {
        Counter::Corpus => client.corpus_size as nat,
        Counter::Objectives => client.objective_size as nat,
        Counter::Executions => client.executions as nat,
    }
}

/// Adds up one counter over all clients; nothing where the sum is beyond 64 bits.
fn sum_counter(clients: &Vec<ClientStats>, counter: Counter) -> (sum: Option<u64>)
    ensures
        match sum {
            Some(sum) => sum == total(clients@, |client: ClientStats| counter_of(client, counter)),
            None => total(clients@, |client: ClientStats| counter_of(client, counter)) > u64::MAX,
        },
{
    let number = Ghost(|client: ClientStats| counter_of(client, counter));
    let mut sum: u64 = 0;
    let mut i: usize = 0;
    while i < clients.len()
        invariant
            i <= clients.len(),
            sum == total(clients@.take(i as int), number@),
            number@ == |client: ClientStats| counter_of(client, counter),
        decreases clients.len() - i,
    {
        let value = match counter {
            Counter::Corpus => clients[i].corpus_size,
            Counter::Objectives => clients[i].objective_size,
            Counter::Executions => clients[i].executions,
        };
        proof {
            assert(clients@.take(i + 1).drop_last() =~= clients@.take(i as int));
            assert(total(clients@.take(i + 1), number@) == sum + value);
            lemma_total_grows(clients@, number@, i + 1);
        }
        match sum.checked_add(value) {
            Some(more) => {
                sum = more;
            },
            None => {
                return None;
            },
        }
        i = i + 1;
    }
    assert(clients@.take(i as int) =~= clients@);
    Some(sum)
}

/// A monitor that shows the size of the state graphs beside the usual numbers.
#[derive(Clone, Debug)]
pub struct StateMonitor {
    start_time: u64,
}

impl HasStateStats for StateMonitor {

}

impl StateMonitor {
    /// The second at which the monitor was started.
    pub closed spec fn spec_start_time(&self) -> u64 {
        self.start_time
    }

    /// A monitor that was started at the second `start_time`.
    pub fn new(start_time: u64) -> (monitor: Self)
        ensures
            monitor.spec_start_time() == start_time,
    {
        StateMonitor { start_time }
    }

    /// The second at which the monitor was started.
    pub fn start_time(&self) -> (start_time: u64)
        ensures
            start_time == self.spec_start_time(),
    {
        self.start_time
    }

    /// The greatest corpus size among the clients.
    pub fn max_corpus_size(&self, clients: &Vec<ClientStats>) -> (val: u64)
        ensures
            val == greatest_corpus(clients@),
    {
        let mut val: u64 = 0;
        let mut i: usize = 0;
        while i < clients.len()
            invariant
                i <= clients.len(),
                val == greatest_corpus(clients@.take(i as int)),
            decreases clients.len() - i,
        {
            assert(clients@.take(i + 1).drop_last() =~= clients@.take(i as int));
            if val < clients[i].corpus_size {
                val = clients[i].corpus_size;
            }
            i = i + 1;
        }
        assert(clients@.take(i as int) =~= clients@);
        val
    }

    /// The numbers of the line that is due at the second `now`, or
    /// nothing where one of the sums is beyond 64 bits.
    pub fn display(&mut self, clients: &Vec<ClientStats>, now: u64) -> (line: Option<DisplayLine>)
        requires
            old(self).spec_start_time() <= now,
        ensures
            final(self).spec_start_time() == old(self).spec_start_time(),
            line is Some <==> line_fits(clients@),
            line is Some ==> line->Some_0 == line_of(
                clients@,
                (now - old(self).spec_start_time()) as u64,
            ),
    {
        proof {
            assert((|client: ClientStats| counter_of(client, Counter::Corpus)) =~= (
            |client: ClientStats| client.corpus_size as nat));
            assert((|client: ClientStats| counter_of(client, Counter::Objectives)) =~= (
            |client: ClientStats| client.objective_size as nat));
            assert((|client: ClientStats| counter_of(client, Counter::Executions)) =~= (
            |client: ClientStats| client.executions as nat));
        }
        let num_nodes = self.avg_statemachine_nodes(clients);
        let num_edges = self.avg_statemachine_edges(clients);
        let corpus_size = sum_counter(clients, Counter::Corpus);
        let objective_size = sum_counter(clients, Counter::Objectives);
        let execs = sum_counter(clients, Counter::Executions);
        let cores = if clients.len() <= 2 {
            1
        } else {
            clients.len() - 1
        };
        match (num_nodes, num_edges, corpus_size, objective_size, execs) {
            (Some(nodes), Some(edges), Some(corpus_size), Some(objective_size), Some(executions)) => {
                Some(
                    DisplayLine {
                        uptime: now - self.start_time,
                        cores,
                        corpus_size,
                        objective_size,
                        executions,
                        nodes,
                        edges,
                    },
                )
            },
            _ => None,
        }
    }
}

/// The text that a dump of the state graphs holds: the graph of each
/// client that has reported one, each followed by a line break.
pub open spec fn dump_text(clients: Seq<ClientStats>) -> Seq<char>
    decreases clients.len(),
{
    if clients.len() == 0 {
        Seq::empty()
    } else {
        dump_text(clients.drop_last()) + match clients.last().state_graph {
            Some(graph) => graph@ + "\n"@,
            None => Seq::empty(),
        }
    }
}

/// A monitor that, beside what its base monitor does, has the state
/// graphs of all clients written out every so many seconds.
#[derive(Clone, Debug)]
pub struct GraphvizMonitor<M> {
    base: M,
    last_update: u64,
    interval: u64,
}

impl<M> GraphvizMonitor<M> {
    /// The second of the last dump.
    pub closed spec fn spec_last_update(&self) -> u64 {
        self.last_update
    }

    /// The seconds that pass between two dumps.
    pub closed spec fn spec_interval(&self) -> u64 {
        self.interval
    }

    /// The monitor around which this one is wrapped.
    pub closed spec fn spec_base(&self) -> M {
        self.base
    }

    /// Wraps `monitor`. The first dump is due `interval` seconds after `now`.
    pub fn new(monitor: M, now: u64, interval: u64) -> (wrapped: Self)
        ensures
            wrapped.spec_base() == monitor,
            wrapped.spec_last_update() == now,
            wrapped.spec_interval() == interval,
    {
        GraphvizMonitor { base: monitor, last_update: now, interval }
    }

    /// The monitor around which this one is wrapped.
    pub fn base(&self) -> (base: &M)
        ensures
            *base == self.spec_base(),
    {
        &self.base
    }

    /// The second of the last dump.
    pub fn last_update(&self) -> (last_update: u64)
        ensures
            last_update == self.spec_last_update(),
    {
        self.last_update
    }

    /// The seconds that pass between two dumps.
    pub fn interval(&self) -> (interval: u64)
        ensures
            interval == self.spec_interval(),
    {
        self.interval
    }

    /// The monitor around which this one is wrapped, for working with it.
    pub fn base_mut(&mut self) -> (base: &mut M)
        ensures
            *base == old(self).spec_base(),
            final(self).spec_base() == *final(base),
            final(self).spec_last_update() == old(self).spec_last_update(),
            final(self).spec_interval() == old(self).spec_interval(),
    {
        &mut self.base
    }

    /// What is to be written out at the second `now`: the dump of all
    /// graphs once the interval has passed since the last dump, else nothing.
    pub fn display(&mut self, clients: &Vec<ClientStats>, now: u64) -> (dump: Option<String>)
        requires
            old(self).spec_last_update() <= now,
        ensures
            final(self).spec_base() == old(self).spec_base(),
            final(self).spec_interval() == old(self).spec_interval(),
            now - old(self).spec_last_update() >= old(self).spec_interval() ==> {
                &&& final(self).spec_last_update() == now
                &&& dump is Some
                &&& dump->Some_0@ == dump_text(clients@)
            },
            now - old(self).spec_last_update() < old(self).spec_interval() ==> {
                &&& final(self).spec_last_update() == old(self).spec_last_update()
                &&& dump is None
            },
    {
        if now - self.last_update >= self.interval {
            self.last_update = now;
            let mut text = String::new();
            let mut i: usize = 0;
            while i < clients.len()
                invariant
                    i <= clients.len(),
                    text@ == dump_text(clients@.take(i as int)),
                decreases clients.len() - i,
            {
                assert(clients@.take(i + 1).drop_last() =~= clients@.take(i as int));
                match &clients[i].state_graph {
                    Some(graph) => {
                        text.append(graph.as_str());
                        text.append("\n");
                        assert(text@ =~= dump_text(clients@.take(i + 1)));
                    },
                    None => {
                        assert(text@ =~= dump_text(clients@.take(i + 1)));
                    },
                }
                i = i + 1;
            }
            assert(clients@.take(i as int) =~= clients@);
            Some(text)
        } else {
            None
        }
    }
}

} // verus!
