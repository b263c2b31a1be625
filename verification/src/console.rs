//! The terminal chat console: what a typed line asks for, the transcript
//! it keeps for the model, and the texts it shows.

use vstd::prelude::*;

use crate::data::job::{cat, cat3};
use crate::mcp::{format_tool_result, tool_result_block, McpConfig, ToolResult};
use crate::text::{starts_with, str_eq, trim, trim_ws};

verus! {

/// What a line typed at the console asks for.
#[derive(Debug, Clone)]
pub enum ChatInput {
    /// A blank line: ask again.
    Skip,
    /// `/exit` or `/quit`.
    Exit,
    /// `/clear`: start the transcript over.
    Clear,
    /// `/help`.
    Help,
    /// A line starting with `/mcp`: show the tools.
    Mcp,
    /// Anything else: a message to the model (trimmed).
    Send(String),
}

/// A typed line's meaning as plain values.
pub enum ChatInputV {
    Skip,
    Exit,
    Clear,
    Help,
    Mcp,
    Send(Seq<char>),
}

pub open spec fn input_view(i: ChatInput) -> ChatInputV {
    match i {
        ChatInput::Skip => ChatInputV::Skip,
        ChatInput::Exit => ChatInputV::Exit,
        ChatInput::Clear => ChatInputV::Clear,
        ChatInput::Help => ChatInputV::Help,
        ChatInput::Mcp => ChatInputV::Mcp,
        ChatInput::Send(t) => ChatInputV::Send(t@),
    }
}

/// The meaning of a typed `line`, judged on the trimmed line.
pub open spec fn chat_input(line: Seq<char>) -> ChatInputV {
    let t = trim(line);
    if t.len() == 0 {
        ChatInputV::Skip
    } else if t == "/exit"@ || t == "/quit"@ {
        ChatInputV::Exit
    } else if t == "/clear"@ {
        ChatInputV::Clear
    } else if t == "/help"@ {
        ChatInputV::Help
    } else if starts_with(t, "/mcp"@) {
        ChatInputV::Mcp
    } else {
        ChatInputV::Send(t)
    }
}

/// Reads a line typed at the console.
pub fn read_chat_input(line: &str) -> (r: ChatInput)
    ensures
        input_view(r) == chat_input(line@),
{
    let t = trim_ws(line);
    let s = t.as_str();
    if s.unicode_len() == 0 {
        ChatInput::Skip
    } else if str_eq(s, "/exit") || str_eq(s, "/quit") {
        ChatInput::Exit
    } else if str_eq(s, "/clear") {
        ChatInput::Clear
    } else if str_eq(s, "/help") {
        ChatInput::Help
    } else if prefixed(s, "/mcp") {
        ChatInput::Mcp
    } else {
        ChatInput::Send(t)
    }
}

/// Whether `s` starts with `p`.
fn prefixed(s: &str, p: &str) -> (r: bool)
    ensures
        r == starts_with(s@, p@),
{
    let cs = crate::text::chars_of(s);
    crate::checkpoint::has_prefix(&cs, p)
}

/// The transcript a conversation starts with: the system prompt.
pub fn transcript_start(system_prompt: &str) -> (r: String)
    ensures
        r@ == "<system>\n"@ + system_prompt@ + "\n</system>\n\n"@,
{
    cat3("<system>\n", system_prompt, "\n</system>\n\n")
}

/// Adds the user's message to the transcript and opens the model's turn.
pub fn push_user_turn(transcript: &mut String, input: &str)
    ensures
        final(transcript)@ == old(transcript)@ + "<user>\n"@ + input@ + "\n</user>\n\n<assistant>\n"@,
{
    transcript.append("<user>\n");
    transcript.append(input);
    transcript.append("\n</user>\n\n<assistant>\n");
}

/// Adds a tool's result to the transcript, on a line of its own.
pub fn push_tool_result(transcript: &mut String, result: &ToolResult)
    ensures
        final(transcript)@ == old(transcript)@ + tool_result_block(result.tool@, result.ok, result.content@)
            + "\n"@,
{
    let block = format_tool_result(result);
    transcript.append(block.as_str());
    transcript.append("\n");
}

/// Closes the model's turn with its `response`.
pub fn push_response(transcript: &mut String, response: &str)
    ensures
        final(transcript)@ == old(transcript)@ + response@ + "\n</assistant>\n\n"@,
{
    transcript.append(response);
    transcript.append("\n</assistant>\n\n");
}

/// `✓` or `✗`.
pub open spec fn mark(on: bool) -> Seq<char> {
    if on {
        "✓"@
    } else {
        "✗"@
    }
}

fn mark_str(on: bool) -> (s: &'static str)
    ensures
        s@ == mark(on),
{
    if on {
        "✓"
    } else {
        "✗"
    }
}

/// The lines that show which tools are enabled and where they work.
pub open spec fn mcp_status_lines(cfg: McpConfig) -> Seq<Seq<char>> {
    seq![
        "MCP Tools enabled:"@,
        "  read_file:    "@ + mark(cfg.read_file),
        "  write_file:   "@ + mark(cfg.write_file),
        "  list_dir:     "@ + mark(cfg.list_dir),
        "  search_files: "@ + mark(cfg.search_files),
        "  get_cwd:      "@ + mark(cfg.get_cwd),
        "  run_shell:    "@ + mark(cfg.run_shell),
        "  working_dir:  "@ + cfg.working_dir@,
    ]
}

/// The tool status, one line per entry.
pub fn mcp_status(cfg: &McpConfig) -> (r: Vec<String>)
    ensures
        r@.map_values(|l: String| l@) == mcp_status_lines(*cfg),
{
    let mut r: Vec<String> = Vec::new();
    r.push("MCP Tools enabled:".to_owned());
    r.push(cat("  read_file:    ", mark_str(cfg.read_file)));
    r.push(cat("  write_file:   ", mark_str(cfg.write_file)));
    r.push(cat("  list_dir:     ", mark_str(cfg.list_dir)));
    r.push(cat("  search_files: ", mark_str(cfg.search_files)));
    r.push(cat("  get_cwd:      ", mark_str(cfg.get_cwd)));
    r.push(cat("  run_shell:    ", mark_str(cfg.run_shell)));
    r.push(cat("  working_dir:  ", cfg.working_dir.as_str()));
    assert(r@.map_values(|l: String| l@) =~= mcp_status_lines(*cfg));
    r
}

/// The console's commands, one line per entry.
pub fn help_lines() -> (r: Vec<&'static str>)
    ensures
        r@.len() == 5,
        r@[0]@ == "Commands:"@,
        r@[1]@ == "  /clear  — clear conversation history"@,
        r@[2]@ == "  /mcp    — show MCP tool status"@,
        r@[3]@ == "  /help   — show this help"@,
        r@[4]@ == "  /exit   — quit"@,
{
    let mut r: Vec<&'static str> = Vec::new();
    r.push("Commands:");
    r.push("  /clear  — clear conversation history");
    r.push("  /mcp    — show MCP tool status");
    r.push("  /help   — show this help");
    r.push("  /exit   — quit");
    r
}

} // verus!
