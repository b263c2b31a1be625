use quark::mcp::{
    basic_tool_gate, disabled, finish_tool, format_tool_result, resolve, search_hit, shell_output, tool_call_bodies,
    written_note, BasicTool, McpConfig, ToolResult,
};

#[test]
fn test_parse_tool_calls() {
    let text = r#"I will read that file.
<tool_call>{"tool":"read_file","path":"README.md"}</tool_call>
Let me also check the directory.
<tool_call>{"tool":"list_dir","path":"."}</tool_call>"#;
    let calls: Vec<serde_json::Value> =
        tool_call_bodies(text).iter().filter_map(|b| serde_json::from_str(b).ok()).collect();
    assert_eq!(calls.len(), 2);
    assert_eq!(calls[0]["tool"], "read_file");
    assert_eq!(calls[1]["tool"], "list_dir");
}

#[test]
fn unterminated_calls_stop_the_scan() {
    assert_eq!(tool_call_bodies("<tool_call> a </tool_call><tool_call>b"), vec!["a".to_string()]);
    assert!(tool_call_bodies("no calls").is_empty());
}

#[test]
fn defaults_and_gates() {
    let cfg = McpConfig::default_for("/w".to_string());
    assert!(cfg.read_file && !cfg.run_shell);
    assert_eq!(basic_tool_gate("read_file", &cfg).unwrap(), BasicTool::ReadFile);
    let r = basic_tool_gate("run_shell", &cfg).unwrap_err();
    assert_eq!(r.content, "Tool 'run_shell' is disabled in this app's MCP config.");
    let r = basic_tool_gate("fly", &cfg).unwrap_err();
    assert_eq!(r.content, "Unknown tool: fly");
    assert!(!disabled("x").ok);
}

#[test]
fn results_and_formats() {
    let r = ToolResult { tool: "read_file".to_string(), ok: true, content: "hi".to_string() };
    assert_eq!(format_tool_result(&r), "<tool_result tool=\"read_file\" status=\"ok\">\nhi\n</tool_result>");
    let r = finish_tool("t", Err("boom".to_string()));
    assert!(!r.ok && r.content == "boom");
    assert_eq!(written_note("/w/a.txt"), "Written 8 bytes to /w/a.txt");
    assert_eq!(shell_output("out\n", "err"), "out\nerr");
    assert_eq!(shell_output(&"y".repeat(3999), "zz").chars().count(), 4000);
}

#[test]
fn paths_resolve_against_the_working_dir() {
    assert_eq!(resolve("/w", ""), "/w");
    assert_eq!(resolve("/w", "/abs"), "/abs");
    assert_eq!(resolve("/w", "a/b"), "/w/a/b");
    assert_eq!(resolve("/w/", "a"), "/w/a");
    assert!(search_hit("main.rs", "") && search_hit("main.rs", "ain") && !search_hit("main.rs", "x"));
}

#[test]
fn written_calls_are_read_back_in_order() {
    let text = "<tool_call>{\"tool\":\"a\"}</tool_call><tool_call> {\"tool\":\"b\",\"n\":2}\n</tool_call>";
    assert_eq!(
        quark::mcp::tool_call_bodies(text),
        vec!["{\"tool\":\"a\"}".to_owned(), "{\"tool\":\"b\",\"n\":2}".to_owned()]
    );
}
