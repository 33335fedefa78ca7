use chat_gateway::queue::FixedSizeQueue;

#[test]
fn new_queue_is_empty() {
    let q: FixedSizeQueue<String> = FixedSizeQueue::new(3);
    assert_eq!(q.compose(), "");
}

#[test]
fn push_keeps_insertion_order() {
    let mut q: FixedSizeQueue<String> = FixedSizeQueue::new(3);
    q.push(String::from("a"));
    q.push(String::from("b"));
    q.push(String::from("c"));
    assert_eq!(q.compose(), "abc");
}

#[test]
fn push_into_full_queue_evicts_exactly_the_oldest() {
    let mut q: FixedSizeQueue<String> = FixedSizeQueue::new(3);
    q.push(String::from("a"));
    q.push(String::from("b"));
    q.push(String::from("c"));
    q.push(String::from("d"));
    assert_eq!(q.compose(), "bcd");
}

#[test]
fn delta_extends_incomplete_turn() {
    let mut q: FixedSizeQueue<String> = FixedSizeQueue::new(3);
    q.handle_incoming(String::from("Hel"));
    q.handle_incoming(String::from("lo"));
    assert_eq!(q.compose(), "Hello");
}

#[test]
fn delta_after_complete_turn_starts_a_new_turn() {
    let mut q: FixedSizeQueue<String> = FixedSizeQueue::new(3);
    q.handle_incoming(String::from("first[[stop]]"));
    q.handle_incoming(String::from("second"));
    assert_eq!(q.compose(), "first[[stop]]second");
    // The second turn accumulated separately: completing it leaves two turns.
    q.handle_incoming(String::from("[[stop]]"));
    assert_eq!(q.compose(), "first[[stop]]second[[stop]]");
}

#[test]
fn delta_onto_empty_queue_starts_a_turn() {
    let mut q: FixedSizeQueue<String> = FixedSizeQueue::new(3);
    q.handle_incoming(String::from("x"));
    assert_eq!(q.compose(), "x");
}

#[test]
fn ring_keeps_only_three_newest_complete_turns() {
    let mut q: FixedSizeQueue<String> = FixedSizeQueue::new(3);
    for i in 1..=4 {
        q.handle_incoming(format!("user:q{}[[stop]]", i));
        q.handle_incoming(format!("a{}", i));
        q.handle_incoming(String::from("[[stop]]"));
    }
    // Eight complete turns went in; only the three newest remain.
    assert_eq!(q.compose(), "a3[[stop]]user:q4[[stop]]a4[[stop]]");
}

#[test]
fn last_is_stop_only_for_terminal_marker() {
    let mut q: FixedSizeQueue<String> = FixedSizeQueue::new(3);
    q.handle_incoming(String::from("body"));
    assert!(!q.last_is_stop());
    q.handle_incoming(String::from("[[stop]]"));
    assert!(q.last_is_stop());
}
