use quark::code::agent::{
    build_prompt, build_system_prompt, extend_transcript, is_mutating_tool, plan_gate, round_step,
    rounds_exhausted_text, tool_result_entry, RoundStep,
};
use quark::code::app::{App, Message, Mode};
use quark::code::stub::{extract_likely_path, extract_search_pattern, generate_stub_response};
use quark::mcp::{tool_call_bodies, McpConfig, ToolResult};

fn app() -> App {
    App::new(
        "m".to_string(),
        "SYS".to_string(),
        McpConfig::default_for("/w".to_string()),
        true,
        "/w".to_string(),
        None,
    )
}

#[test]
fn plan_mode_blocks_writes() {
    let blocked = plan_gate("write_file", Mode::Plan).expect("blocked in plan mode");
    assert!(!blocked.ok);
    assert_eq!(blocked.tool, "write_file");
    assert_eq!(blocked.content, "blocked: Plan mode is read-only (switch with /build)");
    assert!(plan_gate("write_file", Mode::Build).is_none());
    assert!(plan_gate("read_file", Mode::Plan).is_none());
}

#[test]
fn mutating_tools() {
    for t in ["write_file", "write_lines", "apply_diff", "git_add", "git_commit", "run_shell"] {
        assert!(is_mutating_tool(t), "{t}");
    }
    for t in ["read_file", "git_status", "list_dir", ""] {
        assert!(!is_mutating_tool(t), "{t}");
    }
}

#[test]
fn prompt_keeps_the_last_thirty_dialogue_messages() {
    let mut a = app();
    for i in 0..40 {
        a.messages.push(Message::user(&format!("q{i}")));
        a.messages.push(Message::system_msg("note"));
    }
    a.messages.push(Message::assistant("done"));
    let p = build_prompt(&a);
    assert!(!p.contains("q10\n"));
    assert!(p.starts_with("<user>\nq11\n</user>\n\n"));
    assert!(p.ends_with("<assistant>\ndone\n</assistant>\n\n<assistant>\n"));
    assert!(!p.contains("note"));
    assert_eq!(p.matches("<user>").count(), 29);
}

#[test]
fn system_prompt_lists_enabled_tools_and_mode() {
    let mut a = app();
    let s = build_system_prompt(&a);
    assert!(s.starts_with("SYS\n\n## Available Tools\n\n"));
    assert!(s.contains("- read_file(path) — read file contents\n"));
    assert!(!s.contains("run_shell"));
    assert!(s.contains("You are in **BUILD mode**."));
    a.mode = Mode::Plan;
    a.agents_md = Some("# Ctx".to_string());
    a.mcp_cfg.read_file = false;
    let s = build_system_prompt(&a);
    assert!(!s.contains("- read_file(path)"));
    assert!(s.contains("You are in **PLAN mode**."));
    assert!(s.ends_with("\n## Project Context (AGENTS.md)\n\n# Ctx"));
}

#[test]
fn tool_results_are_cut_for_the_model() {
    let long = "x".repeat(4100);
    let r = ToolResult { tool: "read_file".to_string(), ok: true, content: long };
    let e = tool_result_entry(&r);
    assert_eq!(e, format!("<tool_result>\nread_file (ok):\n{}\n</tool_result>\n", "x".repeat(4000)));
    let r = ToolResult { tool: "t".to_string(), ok: false, content: "bad".to_string() };
    assert_eq!(tool_result_entry(&r), "<tool_result>\nt (error):\nbad\n</tool_result>\n");
}

#[test]
fn turn_steps() {
    assert_eq!(round_step(0, 0, true), RoundStep::Answer);
    assert_eq!(round_step(0, 2, false), RoundStep::EndEmpty);
    assert_eq!(round_step(3, 1, true), RoundStep::Continue);
    assert_eq!(round_step(7, 1, true), RoundStep::Stop);
    assert_eq!(rounds_exhausted_text(), "(stopped after 8 tool rounds)");
    let mut t = "P".to_string();
    extend_transcript(&mut t, "R", "T");
    assert_eq!(t, "PR\n</assistant>\n\nT\n<assistant>\n");
}

#[test]
fn stub_turn_runs_tools_and_finishes() {
    let cfg = McpConfig::default_for("/w".to_string());
    let text = generate_stub_response("<user>\nlist the files\n</user>\n\n<assistant>\n", &cfg);
    let bodies = tool_call_bodies(&text);
    assert_eq!(bodies.len(), 1);
    let v: serde_json::Value = serde_json::from_str(&bodies[0]).unwrap();
    assert_eq!(v["tool"], "list_dir");
    // Without a model the turn ends after running the tools.
    assert_eq!(round_step(0, bodies.len(), false), RoundStep::EndEmpty);
}

#[test]
fn stub_answers_by_keyword() {
    let cfg = McpConfig::default_for("/w".to_string());
    let r = generate_stub_response("What CHANGED lately?", &cfg);
    assert!(r.contains("\"git_status\"") && r.contains("\"git_log\",\"n\":5"));
    let r = generate_stub_response("please read 'src/lib.rs' now", &cfg);
    assert!(r.ends_with("{\"tool\":\"read_file\",\"path\":\"src/lib.rs\"}</tool_call>"));
    let r = generate_stub_response("show me", &cfg);
    assert!(r.contains("\"path\":\"src/main.rs\""));
    let r = generate_stub_response("where is `fn main`", &cfg);
    assert!(r.contains("\"pattern\":\"fn main\""));
    let r = generate_stub_response("hello\n  there  \n", &cfg);
    assert!(r.contains("intelligently to: \"there\"\n\n"));
}

#[test]
fn path_and_pattern_extraction() {
    assert_eq!(extract_likely_path("see http://x.y and \"a/b.rs\""), Some("a/b.rs".to_string()));
    assert_eq!(extract_likely_path("nothing here"), None);
    assert_eq!(extract_search_pattern("find 'abc' and \"def\""), "def");
    assert_eq!(extract_search_pattern("find `x` please"), "x");
    assert_eq!(extract_search_pattern("find it"), "fn ");
}
