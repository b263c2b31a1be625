use quark::code::agent::AgentEvent;
use quark::code::app::{App, FileChange, Mode, Role};
use quark::code::tui::{apply_agent_event, delete_last_word, handle_key, handle_slash_command, KeyOutcome, KeyPress, SlashOutcome};
use quark::mcp::McpConfig;

fn app() -> App {
    App::new(
        "m".to_string(),
        String::new(),
        McpConfig::default_for("/w".to_string()),
        false,
        "/w".to_string(),
        None,
    )
}

fn type_text(a: &mut App, s: &str) {
    for c in s.chars() {
        handle_key(a, KeyPress::Char(c));
    }
}

#[test]
fn ctrl_w_deletes_the_last_word() {
    let mut a = app();
    type_text(&mut a, "say hello   ");
    delete_last_word(&mut a);
    assert_eq!(a.input, "say ");
    assert_eq!(a.cursor_pos, 4);
    delete_last_word(&mut a);
    assert_eq!(a.input, "");
}

#[test]
fn keys_edit_and_submit() {
    let mut a = app();
    type_text(&mut a, "  hi  ");
    handle_key(&mut a, KeyPress::Backspace);
    assert_eq!(a.input, "  hi ");
    match handle_key(&mut a, KeyPress::Enter) {
        KeyOutcome::Submit(t) => assert_eq!(t, "hi"),
        other => panic!("{other:?}"),
    }
    assert_eq!(a.input, "");
    assert!(matches!(handle_key(&mut a, KeyPress::Esc), KeyOutcome::Quit));
    assert!(a.should_quit);
}

#[test]
fn tab_toggles_mode() {
    let mut a = app();
    handle_key(&mut a, KeyPress::Tab);
    assert_eq!(a.mode, Mode::Plan);
    assert_eq!(a.messages.last().unwrap().content, "Switched to PLAN mode");
    handle_key(&mut a, KeyPress::Tab);
    assert_eq!(a.mode, Mode::Build);
}

#[test]
fn slash_commands() {
    let mut a = app();
    assert!(matches!(handle_slash_command(&mut a, "/PLAN now"), SlashOutcome::Done));
    assert_eq!(a.mode, Mode::Plan);
    assert_eq!(a.messages.last().unwrap().content, "Switched to PLAN mode.");
    handle_slash_command(&mut a, "/undo");
    assert_eq!(a.messages.last().unwrap().content, "Nothing to undo.");
    handle_slash_command(&mut a, "/diff");
    assert_eq!(a.messages.last().unwrap().content, "No pending file changes.");
    a.record_changes(vec![
        FileChange { path: "/w/a".to_string(), before: None, after: Some("x".to_string()) },
        FileChange { path: "/w/b".to_string(), before: None, after: None },
    ]);
    handle_slash_command(&mut a, "/diff");
    assert_eq!(a.messages.last().unwrap().content, "2 change(s) in: /w/a, /w/b");
    match handle_slash_command(&mut a, "/undo") {
        SlashOutcome::Files(actions) => assert_eq!(actions.len(), 2),
        other => panic!("{other:?}"),
    }
    assert_eq!(a.messages.last().unwrap().content, "↩ Undid: deleted /w/a, deleted /w/b");
    handle_slash_command(&mut a, "/mcp");
    assert_eq!(a.messages.last().unwrap().content, "MCP: read=1 write=1 list=1 search=1 cwd=1 shell=0");
    handle_slash_command(&mut a, "/model");
    assert_eq!(a.messages.last().unwrap().content, "Model: m (not loaded)");
    handle_slash_command(&mut a, "/nope x");
    assert_eq!(a.messages.last().unwrap().role, Role::Tool);
    assert_eq!(a.messages.last().unwrap().content, "Unknown command: /nope x  (try /help)");
    assert!(matches!(handle_slash_command(&mut a, "/init"), SlashOutcome::Init));
    handle_slash_command(&mut a, "/clear");
    assert_eq!(a.messages.len(), 1);
    handle_slash_command(&mut a, "/quit");
    assert!(a.should_quit);
    assert_eq!(a.scroll, usize::MAX);
}

#[test]
fn agent_events_update_the_session() {
    let mut a = app();
    a.begin_turn("go".to_string());
    assert!(a.generating);
    assert!(!apply_agent_event(&mut a, AgentEvent::Token("Hel".to_string())));
    assert!(!apply_agent_event(&mut a, AgentEvent::Token("lo".to_string())));
    assert_eq!(a.stream_buf, "Hello");
    apply_agent_event(&mut a, AgentEvent::ToolCall { name: "ls".to_string(), preview: "p".to_string() });
    assert_eq!(a.messages.last().unwrap().content, "🔧 Calling: ls — p");
    apply_agent_event(&mut a, AgentEvent::ToolResult { name: "ls".to_string(), ok: false, preview: "q".to_string() });
    assert_eq!(a.messages.last().unwrap().content, "✗ ls: q");
    apply_agent_event(&mut a, AgentEvent::FileChanged(FileChange { path: "f".to_string(), before: None, after: None }));
    assert_eq!(a.undo_stack.len(), 1);
    assert!(apply_agent_event(&mut a, AgentEvent::Done("Hello".to_string())));
    assert!(!a.generating);
    assert_eq!(a.stream_buf, "");
    assert_eq!(a.messages.last().unwrap().role, Role::Assistant);
    a.mode = Mode::Plan;
    a.begin_turn("again".to_string());
    assert_eq!(a.messages.last().unwrap().content, "[Plan mode — model will suggest only]");
    assert!(apply_agent_event(&mut a, AgentEvent::Error("boom".to_string())));
    assert_eq!(a.messages.last().unwrap().content, "❌ Error: boom");
}
