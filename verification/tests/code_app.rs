use quark::code::app::{App, FileAction, FileChange, Message, Mode, Role};
use quark::mcp::McpConfig;

fn app() -> App {
    App::new(
        "tiny".to_string(),
        "You are helpful.".to_string(),
        McpConfig::default_for("/work".to_string()),
        false,
        "/work".to_string(),
        None,
    )
}

fn change(path: &str, before: Option<&str>, after: Option<&str>) -> FileChange {
    FileChange {
        path: path.to_string(),
        before: before.map(|s| s.to_string()),
        after: after.map(|s| s.to_string()),
    }
}

#[test]
fn new_session_opens_with_welcome_notices() {
    let a = app();
    assert_eq!(a.mode, Mode::Build);
    assert_eq!(a.messages.len(), 2);
    assert_eq!(a.messages[0].role, Role::System);
    assert_eq!(
        a.messages[0].content,
        "Quark Code  ·  model: tiny (⚠ not loaded — run inference after training)  ·  project: /work  ·  run /init to analyse project"
    );
    assert_eq!(a.messages[1].content, "Tab → toggle Plan/Build mode   /help for commands   Ctrl+C to quit");
    let b = App::new(
        "m".to_string(),
        String::new(),
        McpConfig::default_for(".".to_string()),
        true,
        "/p".to_string(),
        Some("ctx".to_string()),
    );
    assert_eq!(b.messages[0].content, "Quark Code  ·  model: m (✓ loaded)  ·  project: /p  ·  ✓ AGENTS.md found");
}

#[test]
fn typing_and_backspace_work_on_characters() {
    let mut a = app();
    a.insert_char('h');
    a.insert_char('é');
    a.insert_char('!');
    assert_eq!(a.input, "hé!");
    assert_eq!(a.cursor_pos, 4);
    a.cursor_pos = 1;
    a.insert_char('→');
    assert_eq!(a.input, "h→é!");
    assert_eq!(a.cursor_pos, 4);
    a.backspace();
    assert_eq!(a.input, "hé!");
    assert_eq!(a.cursor_pos, 1);
    a.cursor_pos = 0;
    a.backspace();
    assert_eq!(a.input, "hé!");
    assert_eq!(a.cursor_pos, 0);
    let taken = a.take_input();
    assert_eq!(taken, "hé!");
    assert_eq!(a.input, "");
    assert_eq!(a.cursor_pos, 0);
}

#[test]
fn scrolling() {
    let mut a = app();
    a.scroll_down();
    assert_eq!(a.scroll, 3);
    a.scroll_up();
    a.scroll_up();
    assert_eq!(a.scroll, 0);
    a.scroll_to_bottom();
    assert_eq!(a.scroll, usize::MAX);
}

#[test]
fn record_undo_redo_round_trip() {
    let mut a = app();
    a.record_changes(vec![]);
    assert!(a.undo_stack.is_empty());
    a.record_changes(vec![change("/w/a.rs", Some("old"), Some("new")), change("/w/b.rs", None, Some("b"))]);
    assert_eq!(a.undo_stack.len(), 1);
    let (actions, summary) = a.undo().unwrap();
    assert_eq!(summary, "restored /w/a.rs, deleted /w/b.rs");
    assert!(matches!(&actions[0], FileAction::Write { path, content } if path == "/w/a.rs" && content == "old"));
    assert!(matches!(&actions[1], FileAction::Delete { path } if path == "/w/b.rs"));
    assert!(a.undo_stack.is_empty());
    assert_eq!(a.redo_stack.len(), 1);
    assert!(a.undo().is_none());
    let (actions, summary) = a.redo().unwrap();
    assert_eq!(summary, "wrote /w/a.rs, wrote /w/b.rs");
    assert!(matches!(&actions[1], FileAction::Write { content, .. } if content == "b"));
    assert_eq!(a.undo_stack.len(), 1);
    assert!(a.redo_stack.is_empty());
    // A new batch clears what could be redone.
    a.undo();
    a.record_changes(vec![change("/w/c.rs", None, None)]);
    assert!(a.redo_stack.is_empty());
    assert_eq!(a.undo_stack.len(), 1);
}

#[test]
fn message_constructors() {
    assert_eq!(Message::user("u").role, Role::User);
    assert_eq!(Message::assistant("a").role, Role::Assistant);
    assert_eq!(Message::tool("t").content, "t");
    assert_eq!(Message::system_msg("s").role, Role::System);
    assert_eq!(Mode::Plan.label(), "PLAN");
    assert_eq!(Mode::Build.label(), "BUILD");
}
