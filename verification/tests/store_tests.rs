use chat_gateway::memory::MemoryEmitter;
use chat_gateway::tool::{
    is_known_tool, parse_tool_command, payload, selection_report, stock_plugin,
    token_needs_refresh, ToolError,
};

#[test]
fn unknown_session_composes_to_empty() {
    let mem = MemoryEmitter::new();
    assert_eq!(mem.get("nobody"), "");
}

#[test]
fn sessions_are_kept_apart() {
    let mut mem = MemoryEmitter::new();
    mem.insert(String::from("a"), String::from("user:1[[stop]]"));
    mem.insert(String::from("b"), String::from("user:2[[stop]]"));
    mem.insert(String::from("a"), String::from("reply"));
    assert_eq!(mem.get("a"), "user:1[[stop]]reply");
    assert_eq!(mem.get("b"), "user:2[[stop]]");
}

#[test]
fn memory_ring_caps_at_three_turns() {
    let mut mem = MemoryEmitter::new();
    for i in 1..=5 {
        mem.insert(String::from("s"), format!("turn{}[[stop]]", i));
    }
    assert_eq!(mem.get("s"), "turn3[[stop]]turn4[[stop]]turn5[[stop]]");
}

#[test]
fn tool_command_splits_at_first_comma() {
    let tc = parse_tool_command("get_stock_selection,{\"date\":\"20240115\"}").unwrap();
    assert_eq!(tc.name, "get_stock_selection");
    assert_eq!(tc.arguments, "{\"date\":\"20240115\"}");
    // Later commas stay in the arguments.
    let tc2 = parse_tool_command("f,a,b").unwrap();
    assert_eq!(tc2.name, "f");
    assert_eq!(tc2.arguments, "a,b");
    // A leading comma gives an empty name.
    let tc3 = parse_tool_command(",x").unwrap();
    assert_eq!(tc3.name, "");
    assert_eq!(tc3.arguments, "x");
}

#[test]
fn tool_command_without_comma_is_malformed() {
    assert!(matches!(parse_tool_command("no-comma"), Err(ToolError::InvalidFormat)));
    assert!(matches!(parse_tool_command(""), Err(ToolError::InvalidFormat)));
}

#[test]
fn only_the_stock_tool_is_known() {
    assert!(is_known_tool("get_stock_selection"));
    assert!(!is_known_tool("get_weather"));
    assert!(!is_known_tool(""));
}

#[test]
fn stock_plugin_schema_names_its_date_parameter() {
    let tool = stock_plugin();
    assert_eq!(tool.tool_type, "function");
    assert_eq!(tool.function.name, "get_stock_selection");
    assert_eq!(tool.function.parameters.parameters_type, "object");
    assert_eq!(tool.function.parameters.properties.len(), 1);
    assert_eq!(tool.function.parameters.properties[0].0, "date");
    assert_eq!(tool.function.parameters.required, vec![String::from("date")]);
    let tools = payload();
    assert_eq!(tools.len(), 1);
}

#[test]
fn selection_report_frames_the_data() {
    let report = selection_report("{\"stocks\":[]}");
    assert!(report.starts_with("[Play as professional investor role]"));
    assert!(report.ends_with("\n{\"stocks\":[]}"));
}

#[test]
fn token_refresh_rule() {
    assert!(token_needs_refresh(true, 0, 100));
    assert!(token_needs_refresh(false, 101, 100));
    assert!(!token_needs_refresh(false, 100, 100));
    assert!(!token_needs_refresh(false, 50, 100));
}
