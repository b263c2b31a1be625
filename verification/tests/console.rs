use quark::console::{
    help_lines, mcp_status, push_response, push_tool_result, push_user_turn, read_chat_input, transcript_start,
    ChatInput,
};
use quark::mcp::{McpConfig, ToolResult};

#[test]
fn console_lines_are_read_as_commands_or_messages() {
    assert!(matches!(read_chat_input("   \n"), ChatInput::Skip));
    assert!(matches!(read_chat_input("/exit\n"), ChatInput::Exit));
    assert!(matches!(read_chat_input(" /quit "), ChatInput::Exit));
    assert!(matches!(read_chat_input("/clear"), ChatInput::Clear));
    assert!(matches!(read_chat_input("/help"), ChatInput::Help));
    assert!(matches!(read_chat_input("/mcp status"), ChatInput::Mcp));
    assert!(matches!(read_chat_input("  hello there \n"), ChatInput::Send(t) if t == "hello there"));
    assert!(matches!(read_chat_input("/unknown"), ChatInput::Send(t) if t == "/unknown"));
}

#[test]
fn console_transcript_follows_the_template() {
    let mut t = transcript_start("Be brief.");
    assert_eq!(t, "<system>\nBe brief.\n</system>\n\n");
    push_user_turn(&mut t, "Hi");
    push_tool_result(&mut t, &ToolResult { tool: "get_cwd".to_owned(), ok: true, content: "/w".to_owned() });
    push_response(&mut t, "Done");
    assert_eq!(
        t,
        "<system>\nBe brief.\n</system>\n\n<user>\nHi\n</user>\n\n<assistant>\n\
         <tool_result tool=\"get_cwd\" status=\"ok\">\n/w\n</tool_result>\nDone\n</assistant>\n\n"
    );
}

#[test]
fn console_status_and_help() {
    let mut cfg = McpConfig::default_for("/w".to_owned());
    cfg.write_file = false;
    let lines = mcp_status(&cfg);
    assert_eq!(lines[0], "MCP Tools enabled:");
    assert_eq!(lines[1], "  read_file:    ✓");
    assert_eq!(lines[2], "  write_file:   ✗");
    assert_eq!(lines[6], "  run_shell:    ✗");
    assert_eq!(lines[7], "  working_dir:  /w");
    assert_eq!(help_lines().len(), 5);
}
