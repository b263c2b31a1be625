use quark::chat::{
    default_stop_strings, find_stop, partial_stop_len, render_prompt, render_training_segments, ChatMessage,
    ChatRole,
};
use quark::mcp::ToolResult;

#[test]
fn prompt_matches_template() {
    let msgs = [
        ChatMessage::system("Be brief."),
        ChatMessage::user("Hi"),
        ChatMessage::assistant("Hello!"),
        ChatMessage::new(ChatRole::Tool, "read_file (ok):\nx"),
        ChatMessage::user("Bye"),
    ];
    assert_eq!(
        render_prompt(&msgs),
        "<system>\nBe brief.\n</system>\n\n<user>\nHi\n</user>\n\n\
         <assistant>\nHello!\n</assistant>\n\n<tool_result>\nread_file (ok):\nx\n\
         </tool_result>\n\n<user>\nBye\n</user>\n\n<assistant>\n"
    );
}

#[test]
fn only_assistant_content_is_trainable() {
    let segs = render_training_segments(&[ChatMessage::user("Q"), ChatMessage::assistant("A")]);
    let trainable: Vec<&str> = segs.iter().filter(|(_, t)| *t).map(|(s, _)| s.as_str()).collect();
    assert_eq!(trainable, ["A\n</assistant>"]);
}

#[test]
fn stop_helpers() {
    let stops = default_stop_strings();
    assert_eq!(find_stop("done</assistant>\n<user>", &stops), Some(4));
    assert_eq!(find_stop("no stop here", &stops), None);
    assert_eq!(partial_stop_len("text </assis", &stops), "</assis".len());
    assert_eq!(partial_stop_len("text <", &stops), 1);
    assert_eq!(partial_stop_len("text", &stops), 0);
}

#[test]
fn trailing_newlines_are_dropped_from_content() {
    let segs = render_training_segments(&[ChatMessage::assistant("A\n\n\n")]);
    let texts: Vec<&str> = segs.iter().map(|(s, _)| s.as_str()).collect();
    assert_eq!(texts, ["<assistant>\n", "A\n</assistant>", "\n\n"]);
}

#[test]
fn segments_concatenate_to_the_prompt() {
    let msgs = [ChatMessage::system("S"), ChatMessage::assistant("x"), ChatMessage::user("y\n")];
    let joined: String = render_training_segments(&msgs).into_iter().map(|(s, _)| s).collect();
    assert_eq!(format!("{joined}<assistant>\n"), render_prompt(&msgs));
}

#[test]
fn find_stop_reports_byte_offsets_past_multibyte_text() {
    let stops = default_stop_strings();
    // "é" is two bytes, so the stop starts at byte 3, character 2.
    assert_eq!(find_stop("aé<user>", &stops), Some(3));
    assert_eq!(find_stop("<tool_result> then </assistant>", &stops), Some(0));
}

#[test]
fn empty_stop_strings_never_match() {
    let stops = vec![String::new(), "END".to_string()];
    assert_eq!(find_stop("abc", &stops), None);
    assert_eq!(find_stop("abcEND", &stops), Some(3));
}

#[test]
fn tool_result_message_format() {
    let ok = ToolResult { tool: "read_file".into(), ok: true, content: "x".into() };
    let err = ToolResult { tool: "list_dir".into(), ok: false, content: "nope".into() };
    let m = ChatMessage::tool_result(&ok);
    assert_eq!(m.role, ChatRole::Tool);
    assert_eq!(m.content, "read_file (ok):\nx");
    assert_eq!(ChatMessage::tool_result(&err).content, "list_dir (error):\nnope");
}
