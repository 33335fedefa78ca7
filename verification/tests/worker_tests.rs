use chat_gateway::claude::Claude;
use chat_gateway::events::{
    ClaudeDelta, ClaudeEvent, OpenAiChoice, OpenAiDelta, OpenAiEvent, ToolCallFragment,
};
use chat_gateway::memory::MemoryEmitter;
use chat_gateway::openai::OpenAI;
use chat_gateway::registry::{Message, SseEmitter};
use chat_gateway::request::WireRole;
use chat_gateway::worker::{
    record_tool_result, run_claude_session, run_openai_session, ClaudeStreamEvent,
    OpenAiStreamEvent, SessionEnd, worker_step_openai,
};

fn delta(id: &str, content: &str) -> OpenAiStreamEvent {
    OpenAiStreamEvent::Data(OpenAiEvent {
        id: String::from(id),
        choices: vec![OpenAiChoice {
            delta: OpenAiDelta { content: Some(String::from(content)), tool_calls: None },
            finish_reason: None,
        }],
    })
}

fn finish(id: &str, reason: &str) -> OpenAiStreamEvent {
    OpenAiStreamEvent::Data(OpenAiEvent {
        id: String::from(id),
        choices: vec![OpenAiChoice {
            delta: OpenAiDelta { content: None, tool_calls: None },
            finish_reason: Some(String::from(reason)),
        }],
    })
}

fn fragment(id: &str, name: Option<&str>, arguments: &str) -> OpenAiStreamEvent {
    OpenAiStreamEvent::Data(OpenAiEvent {
        id: String::from(id),
        choices: vec![OpenAiChoice {
            delta: OpenAiDelta {
                content: None,
                tool_calls: Some(vec![ToolCallFragment {
                    name: name.map(String::from),
                    arguments: String::from(arguments),
                }]),
            },
            finish_reason: None,
        }],
    })
}

#[test]
fn happy_path_publishes_deltas_then_stop() {
    let mut adapter = OpenAI::new();
    let registry = SseEmitter::new();
    let mut mem = MemoryEmitter::new();
    let events = vec![
        OpenAiStreamEvent::Open,
        delta("e1", "Hel"),
        delta("e1", "lo"),
        finish("e1", "stop"),
    ];
    let (published, end) =
        run_openai_session(&mut adapter, &registry, &mut mem, "S0", "hi", &events);
    assert_eq!(published, vec!["Hel", "lo", "[[stop]]"]);
    assert!(matches!(end, SessionEnd::Stopped));
    assert_eq!(mem.get("S0"), "user:hi[[stop]]Hello[[stop]]");
}

#[test]
fn history_replays_into_the_next_request() {
    let mut adapter = OpenAI::new();
    let registry = SseEmitter::new();
    let mut mem = MemoryEmitter::new();
    let events = vec![delta("e1", "Hel"), delta("e1", "lo"), finish("e1", "stop")];
    run_openai_session(&mut adapter, &registry, &mut mem, "S0", "hi", &events);

    // The follow-up request replays the stored turns before the new message.
    let context = mem.get("S0");
    let payload = adapter.create_request("S0", "more", None, &context, false, "gpt-4-test");
    let views: Vec<(WireRole, &str)> =
        payload.messages.iter().map(|m| (m.role, m.content.as_str())).collect();
    assert_eq!(
        views,
        vec![
            (WireRole::System, payload.messages[0].content.as_str()),
            (WireRole::User, "hi"),
            (WireRole::Assistant, "Hello"),
            (WireRole::User, "more"),
        ]
    );
}

#[test]
fn upstream_failure_still_terminates_with_stop() {
    let mut adapter = OpenAI::new();
    let registry = SseEmitter::new();
    let mut mem = MemoryEmitter::new();
    let events = vec![
        delta("e1", "par"),
        delta("e1", "tial"),
        OpenAiStreamEvent::TransportFailure,
        delta("e1", "never seen"),
    ];
    let (published, end) =
        run_openai_session(&mut adapter, &registry, &mut mem, "S0", "q", &events);
    assert_eq!(published, vec!["par", "tial", "[[stop]]"]);
    assert!(matches!(end, SessionEnd::TransportFailed));
    // The assistant turn was closed by the stop marker.
    assert_eq!(mem.get("S0"), "user:q[[stop]]partial[[stop]]");
}

#[test]
fn parse_failures_are_skipped() {
    let mut adapter = OpenAI::new();
    let registry = SseEmitter::new();
    let mut mem = MemoryEmitter::new();
    let events = vec![
        delta("e1", "a"),
        OpenAiStreamEvent::ParseFailure,
        delta("e1", "b"),
        finish("e1", "stop"),
    ];
    let (published, end) =
        run_openai_session(&mut adapter, &registry, &mut mem, "S0", "q", &events);
    assert_eq!(published, vec!["a", "b", "[[stop]]"]);
    assert!(matches!(end, SessionEnd::Stopped));
}

#[test]
fn empty_body_is_a_no_op() {
    let mut adapter = OpenAI::new();
    let registry = SseEmitter::new();
    let mut mem = MemoryEmitter::new();
    let events = vec![delta("e1", "a"), delta("e1", ""), finish("e1", "stop")];
    let (published, _) =
        run_openai_session(&mut adapter, &registry, &mut mem, "S0", "q", &events);
    // The empty delta was neither published nor appended.
    assert_eq!(published, vec!["a", "[[stop]]"]);
    assert_eq!(mem.get("S0"), "user:q[[stop]]a[[stop]]");
}

#[test]
fn tool_round_trip_records_a_tool_turn() {
    let mut adapter = OpenAI::new();
    let registry = SseEmitter::new();
    let mut mem = MemoryEmitter::new();
    let events = vec![
        fragment("e7", Some("get_stock_selection"), "{\"date\":"),
        fragment("e7", None, "\"20240115\"}"),
        finish("e7", "tool_calls"),
    ];
    let (published, end) = run_openai_session(
        &mut adapter,
        &registry,
        &mut mem,
        "S1",
        "top stocks today",
        &events,
    );
    assert_eq!(published, Vec::<String>::new());
    let cmd = match end {
        SessionEnd::ToolDispatch(cmd) => cmd,
        _ => panic!("expected a tool dispatch"),
    };
    assert_eq!(cmd, "get_stock_selection,{\"date\":\"20240115\"}");

    // The dispatcher runs the plugin and feeds the result back.
    let followup = record_tool_result(&mut mem, "S1", "AAPL,MSFT");
    assert_eq!(followup, "tool:AAPL,MSFT");

    // The follow-up worker does not re-record the tool turn, and the next
    // request replays it under the tool role.
    let events2 = vec![delta("e8", "Buy index funds."), finish("e8", "stop")];
    let (published2, _) =
        run_openai_session(&mut adapter, &registry, &mut mem, "S1", &followup, &events2);
    assert_eq!(published2, vec!["Buy index funds.", "[[stop]]"]);
    let context = mem.get("S1");
    assert_eq!(
        context,
        "user:top stocks today[[stop]]tool:AAPL,MSFT[[stop]]Buy index funds.[[stop]]"
    );
    let payload = adapter.create_request("S1", "thanks", None, &context, false, "gpt-4-test");
    let views: Vec<(WireRole, &str)> =
        payload.messages.iter().map(|m| (m.role, m.content.as_str())).collect();
    assert!(views.contains(&(WireRole::Tool, "AAPL,MSFT")));
}

#[test]
fn tool_followup_message_is_not_recorded_as_user_turn() {
    let mut adapter = OpenAI::new();
    let registry = SseEmitter::new();
    let mut mem = MemoryEmitter::new();
    let events = vec![finish("e1", "stop")];
    run_openai_session(&mut adapter, &registry, &mut mem, "S2", "tool:result", &events);
    // Only the assistant's stop marker was recorded: no user:tool:... turn.
    assert_eq!(mem.get("S2"), "[[stop]]");
}

#[test]
fn unknown_session_publish_is_dropped() {
    let registry = SseEmitter::new();
    let delivered = registry.publish("unknown-id", Message::Reply(String::from("x")));
    assert!(!delivered);
}

#[test]
fn duplicate_insert_overwrites_the_sender() {
    let registry_delivery = {
        let mut registry = SseEmitter::new();
        let (tx1, mut rx1) = tokio::sync::mpsc::unbounded_channel::<Message>();
        let (tx2, mut rx2) = tokio::sync::mpsc::unbounded_channel::<Message>();
        registry.insert(String::from("S0"), tx1);
        registry.insert(String::from("S0"), tx2);
        let delivered = registry.publish("S0", Message::Reply(String::from("ping")));
        assert!(delivered);
        // Only the later sender receives: no duplicate delivery.
        assert!(rx1.try_recv().is_err());
        let got = rx2.try_recv().expect("second sender should receive");
        match got {
            Message::Reply(text) => assert_eq!(text, "ping"),
            _ => panic!("expected a reply"),
        }
        true
    };
    assert!(registry_delivery);
}

#[test]
fn publish_reaches_registered_session() {
    let mut registry = SseEmitter::new();
    let (tx, mut rx) = tokio::sync::mpsc::unbounded_channel::<Message>();
    registry.insert(String::from("S3"), tx);
    assert!(registry.publish("S3", Message::Connected(String::from("S3"))));
    assert!(matches!(rx.try_recv().unwrap(), Message::Connected(_)));
}

#[test]
fn single_step_publishes_in_event_order() {
    let mut adapter = OpenAI::new();
    let mut registry = SseEmitter::new();
    let mut mem = MemoryEmitter::new();
    let (tx, mut rx) = tokio::sync::mpsc::unbounded_channel::<Message>();
    registry.insert(String::from("S4"), tx);
    let (p1, e1) = worker_step_openai(&mut adapter, &registry, &mut mem, "S4", &delta("e", "a"));
    assert_eq!(p1.as_deref(), Some("a"));
    assert!(e1.is_none());
    let (p2, e2) =
        worker_step_openai(&mut adapter, &registry, &mut mem, "S4", &finish("e", "stop"));
    assert_eq!(p2.as_deref(), Some("[[stop]]"));
    assert!(matches!(e2, Some(SessionEnd::Stopped)));
    match rx.try_recv().unwrap() {
        Message::Reply(t) => assert_eq!(t, "a"),
        _ => panic!("expected reply"),
    }
    match rx.try_recv().unwrap() {
        Message::Reply(t) => assert_eq!(t, "[[stop]]"),
        _ => panic!("expected reply"),
    }
}

#[test]
fn claude_session_mirrors_the_stream() {
    let adapter = Claude::new();
    let registry = SseEmitter::new();
    let mut mem = MemoryEmitter::new();
    let text = |t: &str| {
        ClaudeStreamEvent::Data(ClaudeEvent {
            kind: Some(String::from("content_block_delta")),
            delta: Some(ClaudeDelta { text: Some(String::from(t)), partial_json: None }),
        })
    };
    let stop = ClaudeStreamEvent::Data(ClaudeEvent {
        kind: Some(String::from("message_stop")),
        delta: None,
    });
    let events = vec![ClaudeStreamEvent::Open, text("Hi"), text(" there"), stop];
    let (published, end) =
        run_claude_session(&adapter, &registry, &mut mem, "C0", "hello", &events);
    assert_eq!(published, vec!["Hi", " there", "[[stop]]"]);
    assert!(matches!(end, SessionEnd::Stopped));
    assert_eq!(mem.get("C0"), "user:hello[[stop]]Hi there[[stop]]");
}

#[test]
fn exhausted_stream_publishes_nothing_more() {
    let mut adapter = OpenAI::new();
    let registry = SseEmitter::new();
    let mut mem = MemoryEmitter::new();
    let events = vec![delta("e1", "a")];
    let (published, end) =
        run_openai_session(&mut adapter, &registry, &mut mem, "S5", "q", &events);
    assert_eq!(published, vec!["a"]);
    assert!(matches!(end, SessionEnd::Exhausted));
}
