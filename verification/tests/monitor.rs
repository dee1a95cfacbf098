use butterfly::monitor::client_stat;
use butterfly::{Average, ClientStats, GraphvizMonitor, HasStateStats, StateMonitor};

fn client(corpus: u64, nodes: Option<u64>, edges: Option<u64>, graph: Option<&str>) -> ClientStats {
    ClientStats {
        corpus_size: corpus,
        objective_size: corpus / 2,
        executions: corpus * 100,
        state_nodes: nodes,
        state_edges: edges,
        state_graph: graph.map(|g| g.to_string()),
    }
}

fn clients() -> Vec<ClientStats> {
    vec![
        client(0, None, None, None),
        client(10, Some(4), Some(3), Some("digraph A {}")),
        client(30, Some(6), Some(9), None),
        client(20, Some(5), None, Some("digraph B {}")),
    ]
}

#[test]
fn average_is_sum_over_all_clients() {
    let mut monitor = StateMonitor::new(0);
    assert_eq!(
        monitor.avg_statemachine_nodes(&clients()),
        Some(Average { sum: 15, clients: 4 })
    );
    assert_eq!(
        monitor.avg_statemachine_edges(&clients()),
        Some(Average { sum: 12, clients: 4 })
    );
    assert_eq!(
        monitor.calculate_average("butterfly_state_nodes", &clients()),
        Some(Average { sum: 15, clients: 4 })
    );
    assert_eq!(
        monitor.calculate_average("something_else", &clients()),
        Some(Average { sum: 0, clients: 4 })
    );
    assert_eq!(
        monitor.avg_statemachine_nodes(&Vec::new()),
        Some(Average { sum: 0, clients: 0 })
    );
}

#[test]
fn sum_beyond_64_bits_gives_no_average() {
    let mut monitor = StateMonitor::new(0);
    let big = vec![client(1, Some(u64::MAX), Some(1), None), client(1, Some(1), Some(1), None)];
    assert_eq!(monitor.avg_statemachine_nodes(&big), None);
    assert_eq!(monitor.avg_statemachine_edges(&big), Some(Average { sum: 2, clients: 2 }));
    assert_eq!(monitor.display(&big, 5), None);
}

#[test]
fn client_reports_are_found_by_name() {
    let c = client(1, Some(4), Some(3), None);
    assert_eq!(client_stat(&c, "butterfly_state_nodes"), Some(4));
    assert_eq!(client_stat(&c, "butterfly_state_edges"), Some(3));
    assert_eq!(client_stat(&c, "butterfly_state_graph"), None);
    assert_eq!(client_stat(&client(1, None, None, None), "butterfly_state_nodes"), None);
}

#[test]
fn display_line_adds_up_the_clients() {
    let mut monitor = StateMonitor::new(100);
    assert_eq!(monitor.start_time(), 100);
    let line = monitor.display(&clients(), 160).unwrap();
    assert_eq!(line.uptime, 60);
    assert_eq!(line.cores, 3);
    assert_eq!(line.corpus_size, 60);
    assert_eq!(line.objective_size, 30);
    assert_eq!(line.executions, 6000);
    assert_eq!(line.nodes, Average { sum: 15, clients: 4 });
    assert_eq!(line.edges, Average { sum: 12, clients: 4 });
    assert_eq!(monitor.max_corpus_size(&clients()), 30);
    assert_eq!(monitor.max_corpus_size(&Vec::new()), 0);
}

#[test]
fn at_least_one_core_is_shown() {
    let mut monitor = StateMonitor::new(0);
    assert_eq!(monitor.display(&Vec::new(), 0).unwrap().cores, 1);
    let one: Vec<ClientStats> = vec![client(7, None, None, None)];
    assert_eq!(monitor.display(&one, 0).unwrap().cores, 1);
    let two: Vec<ClientStats> = (0..2).map(|i| client(i, None, None, None)).collect();
    assert_eq!(monitor.display(&two, 0).unwrap().cores, 1);
    let three: Vec<ClientStats> = (0..3).map(|i| client(i, None, None, None)).collect();
    assert_eq!(monitor.display(&three, 0).unwrap().cores, 2);
}

#[test]
fn graphs_are_dumped_once_the_interval_has_passed() {
    let mut monitor = GraphvizMonitor::new(StateMonitor::new(0), 1000, 60);
    assert_eq!(monitor.base().start_time(), 0);
    assert_eq!(monitor.base_mut().start_time(), 0);
    assert_eq!(monitor.interval(), 60);
    assert_eq!(monitor.last_update(), 1000);
    assert_eq!(monitor.display(&clients(), 1000), None);
    assert_eq!(monitor.display(&clients(), 1059), None);
    assert_eq!(
        monitor.display(&clients(), 1060),
        Some("digraph A {}\ndigraph B {}\n".to_string())
    );
    assert_eq!(monitor.last_update(), 1060);
    assert_eq!(monitor.display(&clients(), 1061), None);
    assert_eq!(monitor.display(&clients(), 1119), None);
    assert_eq!(monitor.display(&Vec::new(), 1120), Some(String::new()));
}

#[test]
fn interval_of_zero_dumps_every_time() {
    let mut monitor = GraphvizMonitor::new((), 5, 0);
    let one = vec![client(1, None, None, Some("g"))];
    assert_eq!(monitor.display(&one, 5), Some("g\n".to_string()));
    assert_eq!(monitor.display(&Vec::new(), 5), Some(String::new()));
}
