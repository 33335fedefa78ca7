use chat_gateway::claude::Claude;
use chat_gateway::events::{
    ClaudeDelta, ClaudeEvent, MessageAction, OpenAiChoice, OpenAiDelta, OpenAiEvent, ProcessError,
    ToolCallFragment,
};
use chat_gateway::openai::OpenAI;
use chat_gateway::request::{get_media_type, WireRole};

fn body_event(id: &str, content: &str) -> OpenAiEvent {
    OpenAiEvent {
        id: String::from(id),
        choices: vec![OpenAiChoice {
            delta: OpenAiDelta { content: Some(String::from(content)), tool_calls: None },
            finish_reason: None,
        }],
    }
}

fn finish_event(id: &str, reason: &str) -> OpenAiEvent {
    OpenAiEvent {
        id: String::from(id),
        choices: vec![OpenAiChoice {
            delta: OpenAiDelta { content: None, tool_calls: None },
            finish_reason: Some(String::from(reason)),
        }],
    }
}

fn fragment_event(id: &str, name: Option<&str>, arguments: &str) -> OpenAiEvent {
    OpenAiEvent {
        id: String::from(id),
        choices: vec![OpenAiChoice {
            delta: OpenAiDelta {
                content: None,
                tool_calls: Some(vec![ToolCallFragment {
                    name: name.map(String::from),
                    arguments: String::from(arguments),
                }]),
            },
            finish_reason: None,
        }],
    }
}

#[test]
fn openai_content_delta_sends_body() {
    let mut adapter = OpenAI::new();
    match adapter.process(&body_event("e1", "Hel")) {
        Ok(MessageAction::SendBody(b)) => assert_eq!(b, "Hel"),
        _ => panic!("expected SendBody"),
    }
}

#[test]
fn openai_nonnull_finish_reason_stops() {
    let mut adapter = OpenAI::new();
    assert!(matches!(adapter.process(&finish_event("e1", "stop")), Ok(MessageAction::Stop)));
    assert!(matches!(adapter.process(&finish_event("e1", "length")), Ok(MessageAction::Stop)));
}

#[test]
fn openai_empty_choices_is_rejected() {
    let mut adapter = OpenAI::new();
    let ev = OpenAiEvent { id: String::from("e1"), choices: vec![] };
    assert!(matches!(adapter.process(&ev), Err(ProcessError::EmptyChoices)));
}

#[test]
fn openai_reassembles_tool_call_across_fragments() {
    let mut adapter = OpenAI::new();
    let r1 = adapter.process(&fragment_event("e7", Some("get_stock_selection"), "{\"date\":"));
    assert!(matches!(r1, Ok(MessageAction::NoAction)));
    let r2 = adapter.process(&fragment_event("e7", None, "\"20240115\"}"));
    assert!(matches!(r2, Ok(MessageAction::NoAction)));
    match adapter.process(&finish_event("e7", "tool_calls")) {
        Ok(MessageAction::SendFunc(cmd)) => {
            assert_eq!(cmd, "get_stock_selection,{\"date\":\"20240115\"}");
        },
        _ => panic!("expected SendFunc"),
    }
}

#[test]
fn openai_tool_call_entry_is_removed_on_dispatch() {
    let mut adapter = OpenAI::new();
    adapter.process(&fragment_event("e9", Some("get_stock_selection"), "{}")).unwrap();
    assert!(matches!(
        adapter.process(&finish_event("e9", "tool_calls")),
        Ok(MessageAction::SendFunc(_))
    ));
    // The entry was read once and removed: a second finish cannot find it.
    assert!(matches!(
        adapter.process(&finish_event("e9", "tool_calls")),
        Err(ProcessError::MissingToolCall)
    ));
}

#[test]
fn openai_fragments_without_name_start_with_empty_name() {
    let mut adapter = OpenAI::new();
    adapter.process(&fragment_event("e3", None, "{}")).unwrap();
    match adapter.process(&finish_event("e3", "tool_calls")) {
        Ok(MessageAction::SendFunc(cmd)) => assert_eq!(cmd, ",{}"),
        _ => panic!("expected SendFunc"),
    }
}

#[test]
fn claude_content_block_delta_sends_text() {
    let adapter = Claude::new();
    let ev = ClaudeEvent {
        kind: Some(String::from("content_block_delta")),
        delta: Some(ClaudeDelta { text: Some(String::from("Hi")), partial_json: None }),
    };
    match adapter.process(&ev) {
        MessageAction::SendBody(b) => assert_eq!(b, "Hi"),
        _ => panic!("expected SendBody"),
    }
}

#[test]
fn claude_message_stop_stops() {
    let adapter = Claude::new();
    let ev = ClaudeEvent { kind: Some(String::from("message_stop")), delta: None };
    assert!(matches!(adapter.process(&ev), MessageAction::Stop));
}

#[test]
fn claude_other_events_do_nothing() {
    let adapter = Claude::new();
    let ping = ClaudeEvent { kind: Some(String::from("ping")), delta: None };
    assert!(matches!(adapter.process(&ping), MessageAction::NoAction));
    let untyped = ClaudeEvent { kind: None, delta: None };
    assert!(matches!(adapter.process(&untyped), MessageAction::NoAction));
    let textless = ClaudeEvent {
        kind: Some(String::from("content_block_delta")),
        delta: Some(ClaudeDelta { text: None, partial_json: Some(String::from("{")) }),
    };
    assert!(matches!(adapter.process(&textless), MessageAction::NoAction));
}

#[test]
fn openai_request_replays_history_in_order() {
    // A conversation so far, then a follow-up: system prompt, prior turns in
    // order, then the new user turn.
    let adapter = OpenAI::new();
    let context = "user:hi[[stop]]Hello[[stop]]";
    let payload = adapter.create_request("S0", "more", None, context, false, "gpt-4-test");
    assert!(payload.stream);
    assert_eq!(payload.model, "gpt-4-test");
    assert_eq!(payload.user.as_deref(), Some("S0"));
    assert_eq!(payload.max_tokens, Some(4096));
    let roles: Vec<WireRole> = payload.messages.iter().map(|m| m.role).collect();
    assert_eq!(
        roles,
        vec![WireRole::System, WireRole::User, WireRole::Assistant, WireRole::User]
    );
    assert_eq!(payload.messages[1].content, "hi");
    assert_eq!(payload.messages[2].content, "Hello");
    assert_eq!(payload.messages[3].content, "more");
}

#[test]
fn openai_reasoning_model_omits_system_prompt_and_extras() {
    let adapter = OpenAI::new();
    let image = vec![1u8, 2, 3];
    let payload = adapter.create_request(
        "S0",
        "hi",
        Some(&image),
        "",
        true,
        "o3-mini-2025-01-31",
    );
    assert_eq!(payload.max_tokens, None);
    assert!(!payload.tools_enabled);
    let roles: Vec<WireRole> = payload.messages.iter().map(|m| m.role).collect();
    assert_eq!(roles, vec![WireRole::User]);
    assert!(payload.messages[0].image.is_none());
}

#[test]
fn openai_chat_model_attaches_base64_image() {
    let adapter = OpenAI::new();
    let image = b"hello".to_vec();
    let payload = adapter.create_request("S0", "look", Some(&image), "", false, "gpt-4-test");
    let part = payload.messages.last().unwrap().image.as_ref().unwrap();
    assert_eq!(part.media_type, "image/png");
    assert_eq!(part.data, "aGVsbG8=");
}

#[test]
fn openai_tools_enabled_only_with_plugin() {
    let adapter = OpenAI::new();
    let with = adapter.create_request("S0", "q", None, "", true, "gpt-4-test");
    assert!(with.tools_enabled);
    let without = adapter.create_request("S0", "q", None, "", false, "gpt-4-test");
    assert!(!without.tools_enabled);
}

#[test]
fn claude_request_has_no_system_role() {
    let adapter = Claude::new();
    let payload =
        adapter.create_request("more", None, "user:hi[[stop]]Hello[[stop]]", "anthropic-test");
    assert!(payload.stream);
    assert_eq!(payload.model, "anthropic-test");
    assert_eq!(payload.max_tokens, 4096);
    let roles: Vec<WireRole> = payload.messages.iter().map(|m| m.role).collect();
    assert_eq!(roles, vec![WireRole::User, WireRole::Assistant, WireRole::User]);
}

#[test]
fn claude_request_infers_media_type_from_url() {
    let adapter = Claude::new();
    let image = b"img".to_vec();
    let payload = adapter.create_request(
        "look",
        Some((&image, "https://x.test/a.JPG")),
        "",
        "anthropic-test",
    );
    let part = payload.messages.last().unwrap().image.as_ref().unwrap();
    assert_eq!(part.media_type, "image/jpeg");
    assert_eq!(part.data, "aW1n");
}

#[test]
fn media_type_inference_covers_known_suffixes() {
    assert_eq!(get_media_type("a.png"), "image/png");
    assert_eq!(get_media_type("a.jpg"), "image/jpeg");
    assert_eq!(get_media_type("a.jpeg"), "image/jpeg");
    assert_eq!(get_media_type("a.gif"), "image/gif");
    assert_eq!(get_media_type("a.webp"), "image/webp");
    assert_eq!(get_media_type("a.bmp"), "image/png");
    assert_eq!(get_media_type("A.WEBP"), "image/webp");
}
