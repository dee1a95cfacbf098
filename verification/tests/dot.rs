use butterfly::dot::{push_decimal, push_edge, write_dot};
use butterfly::pack_transition;

#[test]
fn numbers_are_written_in_decimal() {
    for n in [0u32, 7, 9, 10, 11, 99, 100, 101, 4096, 1_000_000, u32::MAX - 1, u32::MAX] {
        let mut text = String::from("x");
        push_decimal(&mut text, n);
        assert_eq!(text, format!("x{}", n));
    }
}

#[test]
fn edge_is_written_as_a_dot_statement() {
    let mut text = String::new();
    push_edge(&mut text, pack_transition(3, 14));
    assert_eq!(text, "\"3\"->\"14\";");
    push_edge(&mut text, pack_transition(u32::MAX, 0));
    assert_eq!(text, "\"3\"->\"14\";\"4294967295\"->\"0\";");
}

#[test]
fn graph_is_written_in_the_given_order() {
    let mut text = String::new();
    write_dot(&mut text, &vec![pack_transition(0, 1), pack_transition(1, 2), pack_transition(2, 0)]);
    assert_eq!(text, "digraph IMPLEMENTED_STATE_MACHINE {\"0\"->\"1\";\"1\"->\"2\";\"2\"->\"0\";}");
    let mut text = String::from("# ");
    write_dot(&mut text, &Vec::new());
    assert_eq!(text, "# digraph IMPLEMENTED_STATE_MACHINE {}");
}
