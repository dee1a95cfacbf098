use butterfly::{
    AggregatorOps, StateFeedback, StateObserver, UserStatsValue, USER_STAT_EDGES, USER_STAT_NODES,
    USER_STAT_STATEGRAPH,
};

#[test]
fn statistics_have_their_names() {
    assert_eq!(USER_STAT_NODES, "butterfly_state_nodes");
    assert_eq!(USER_STAT_EDGES, "butterfly_state_edges");
    assert_eq!(USER_STAT_STATEGRAPH, "butterfly_state_graph");
}

#[test]
fn feedback_looks_at_its_observer() {
    let observer = StateObserver::<u32>::new("ButterflyState");
    let feedback = StateFeedback::new(&observer);
    assert_eq!(feedback.observer_name(), "ButterflyState");
    assert_eq!(feedback.name(), "StateFeedback");
}

#[test]
fn run_without_new_edge_is_not_interesting() {
    let mut observer = StateObserver::<u32>::new("ButterflyState");
    let mut feedback = StateFeedback::new(&observer);
    let (interesting, reports) = feedback.is_interesting(&observer, true);
    assert!(!interesting);
    assert!(reports.is_empty());
    observer.record(&220);
    let (interesting, reports) = feedback.is_interesting(&observer, false);
    assert!(!interesting);
    assert!(reports.is_empty());
}

#[test]
fn run_with_new_edge_reports_the_counts() {
    let mut observer = StateObserver::<u32>::new("ButterflyState");
    let mut feedback = StateFeedback::new(&observer);
    for state in [220, 331, 230, 230, 215] {
        observer.record(&state);
    }
    let (interesting, reports) = feedback.is_interesting(&observer, false);
    assert!(interesting);
    assert_eq!(reports.len(), 2);
    assert_eq!(reports[0].name, "butterfly_state_nodes");
    assert!(matches!(reports[0].value, UserStatsValue::Number(4)));
    assert_eq!(reports[0].aggregator, AggregatorOps::Max);
    assert_eq!(reports[1].name, "butterfly_state_edges");
    assert!(matches!(reports[1].value, UserStatsValue::Number(3)));
    assert_eq!(reports[1].aggregator, AggregatorOps::Max);

    observer.pre_exec();
    for state in [220, 331, 230, 230, 215] {
        observer.record(&state);
    }
    let (interesting, reports) = feedback.is_interesting(&observer, false);
    assert!(!interesting);
    assert!(reports.is_empty());
}

#[test]
fn graph_is_reported_on_request() {
    let mut observer = StateObserver::<u32>::new("ButterflyState");
    let mut feedback = StateFeedback::new(&observer);
    observer.record(&1);
    observer.record(&2);
    let (interesting, reports) = feedback.is_interesting(&observer, true);
    assert!(interesting);
    assert_eq!(reports.len(), 3);
    assert_eq!(reports[2].name, "butterfly_state_graph");
    assert_eq!(reports[2].aggregator, AggregatorOps::Unaggregated);
    match &reports[2].value {
        UserStatsValue::String(text) => {
            assert_eq!(text, "digraph IMPLEMENTED_STATE_MACHINE {\"0\"->\"1\";}")
        }
        other => panic!("no text: {:?}", other),
    }
}
