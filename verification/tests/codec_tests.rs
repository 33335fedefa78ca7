use chat_gateway::codec::{decode_history, encode_user_turn, is_tool_followup, Role};

#[test]
fn decode_empty_context_gives_no_turns() {
    let turns = decode_history("");
    assert_eq!(turns.len(), 0);
}

#[test]
fn decode_classifies_roles_by_prefix() {
    let turns = decode_history("user:hi[[stop]]Hello[[stop]]tool:data[[stop]]");
    assert_eq!(turns.len(), 3);
    assert!(matches!(turns[0].role, Role::User));
    assert_eq!(turns[0].content, "hi");
    assert!(matches!(turns[1].role, Role::Assistant));
    assert_eq!(turns[1].content, "Hello");
    assert!(matches!(turns[2].role, Role::Tool));
    assert_eq!(turns[2].content, "data");
}

#[test]
fn decode_discards_empty_pieces() {
    let turns = decode_history("[[stop]][[stop]]user:x[[stop]]");
    assert_eq!(turns.len(), 1);
    assert!(matches!(turns[0].role, Role::User));
    assert_eq!(turns[0].content, "x");
}

#[test]
fn decode_keeps_incomplete_tail() {
    let turns = decode_history("user:q[[stop]]partial answer");
    assert_eq!(turns.len(), 2);
    assert!(matches!(turns[1].role, Role::Assistant));
    assert_eq!(turns[1].content, "partial answer");
}

#[test]
fn round_trip_of_tagged_turns() {
    // Encode a conversation by hand, decode it, and expect the exact pairs.
    let context = "user:what is 2+2[[stop]]4[[stop]]tool:rates[[stop]]";
    let turns = decode_history(context);
    let pairs: Vec<(&str, String)> = turns
        .iter()
        .map(|t| {
            let role = match t.role {
                Role::User => "user",
                Role::Tool => "tool",
                Role::Assistant => "assistant",
            };
            (role, t.content.clone())
        })
        .collect();
    assert_eq!(
        pairs,
        vec![
            ("user", String::from("what is 2+2")),
            ("assistant", String::from("4")),
            ("tool", String::from("rates")),
        ]
    );
}

#[test]
fn encode_user_turn_tags_and_terminates() {
    assert_eq!(encode_user_turn("hi"), "user:hi[[stop]]");
    assert_eq!(encode_user_turn(""), "user:[[stop]]");
}

#[test]
fn tool_followups_are_recognised() {
    assert!(is_tool_followup("tool:result"));
    assert!(!is_tool_followup("user question"));
    assert!(!is_tool_followup("tool"));
}
