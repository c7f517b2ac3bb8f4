use opencrust::json::JsonValue;
use opencrust::mcp::{call_arguments, call_output, server_tools, McpContent, McpTool, McpToolInfo};

#[test]
fn mcp_tool_is_namespaced_by_server() {
    let t = McpTool::new("files", "read".to_string(), None, "{}".to_string(), 30_000);
    assert_eq!(t.namespaced_name, "files.read");
    assert_eq!(t.tool_description, "MCP tool read from files");
    let info = t.info();
    assert_eq!(info.name, "files.read");
    assert_eq!(info.input_schema, "{}");
    assert!(info.system_hint.is_none());
}

#[test]
fn mcp_tool_keeps_its_own_description() {
    let t = McpTool::new("git", "log".to_string(), Some("Show history".to_string()), "{}".to_string(), 5);
    assert_eq!(t.tool_description, "Show history");
    assert_eq!(t.original_name, "log");
    assert_eq!(t.timeout_ms, 5);
}

#[test]
fn server_tools_one_per_info() {
    let infos = vec![
        McpToolInfo { name: "a".to_string(), description: None, input_schema: "{}".to_string() },
        McpToolInfo { name: "b".to_string(), description: Some("B".to_string()), input_schema: "{\"type\":\"object\"}".to_string() },
    ];
    let tools = server_tools("srv", &infos, 100);
    assert_eq!(tools.len(), 2);
    assert_eq!(tools[0].namespaced_name, "srv.a");
    assert_eq!(tools[1].tool_description, "B");
    assert_eq!(tools[1].schema, "{\"type\":\"object\"}");
    assert!(server_tools("srv", &vec![], 1).is_empty());
}

#[test]
fn call_arguments_shapes() {
    let obj = JsonValue::Object(vec![("path".to_string(), JsonValue::Str("/tmp".to_string()))]);
    assert_eq!(call_arguments(obj), Some(vec![("path".to_string(), JsonValue::Str("/tmp".to_string()))]));
    assert_eq!(call_arguments(JsonValue::Null), None);
    assert_eq!(
        call_arguments(JsonValue::Str("x".to_string())),
        Some(vec![("input".to_string(), JsonValue::Str("x".to_string()))])
    );
}

#[test]
fn call_output_joins_items() {
    let out = call_output(&vec![McpContent::Text("one".to_string()), McpContent::NonText, McpContent::Text("two".to_string())], None);
    assert_eq!(out.content, "one\n[non-text content]\ntwo");
    assert!(!out.is_error);
    let err = call_output(&vec![McpContent::Text("boom".to_string())], Some(true));
    assert!(err.is_error);
    assert_eq!(err.content, "boom");
    let empty = call_output(&vec![], Some(false));
    assert_eq!(empty.content, "");
    assert!(!empty.is_error);
}
