//! The agent's turn: the prompts it sends, the check that keeps Plan mode
//! read-only, how tool results are fed back, and when a turn ends.

use vstd::prelude::*;

use crate::code::app::{App, FileChange, Message, Mode, Role};
use crate::mcp::{status_word, McpConfig, ToolResult};
use crate::text::{str_eq, take_chars};

verus! {

/// What a running agent turn reports to the interface.
#[derive(Debug, Clone)]
pub enum AgentEvent {
    Token(String),
    ToolCall { name: String, preview: String },
    ToolResult { name: String, ok: bool, preview: String },
    FileChanged(FileChange),
    /// Text of an intermediate round (the one that issued tool calls).
    Segment(String),
    /// The final round's response (may be empty).
    Done(String),
    Error(String),
}

/// Maximum model → tools → model round trips in one turn.
pub const MAX_TOOL_ROUNDS: usize = 8;

/// Tool output fed back to the model is cut to this many characters.
pub const MAX_TOOL_RESULT_CHARS: usize = 4000;

/// The tool list of the system prompt, one line per enabled basic tool.
pub open spec fn basic_tool_lines(cfg: McpConfig) -> Seq<char> {
    (if cfg.read_file {
        "- read_file(path) — read file contents\n"@
    } else {
        Seq::empty()
    }) + (if cfg.write_file {
        "- write_file(path, content) — create or overwrite a file\n"@
    } else {
        Seq::empty()
    }) + (if cfg.list_dir {
        "- list_dir(path?) — list directory\n"@
    } else {
        Seq::empty()
    }) + (if cfg.search_files {
        "- search_files(pattern, path?) — find files by name\n"@
    } else {
        Seq::empty()
    }) + (if cfg.get_cwd {
        "- get_cwd() — current working directory\n"@
    } else {
        Seq::empty()
    }) + (if cfg.run_shell {
        "- run_shell(command) — run shell command\n"@
    } else {
        Seq::empty()
    })
}

/// The part of the system prompt that lists the tools that are always there.
pub open spec fn extended_tool_lines() -> Seq<char> {
    "- read_lines(path, start, end) — read specific lines\n"@
        + "- write_lines(path, content) — write file content\n"@
        + "- grep_code(pattern, path?) — search code with grep\n"@
        + "- find_files(pattern) — find files matching pattern\n"@ + "\n### Git Tools\n"@
        + "- git_status() — show working tree status\n"@
        + "- git_diff(path?) — show uncommitted changes\n"@
        + "- git_log(n?) — recent commit history\n"@ + "- git_add(path?) — stage changes\n"@
        + "- git_commit(message) — commit staged changes\n"@
        + "- git_branch() — current branch name\n"@
}

/// The paragraph of the system prompt that states the mode.
pub open spec fn mode_text(mode: Mode) -> Seq<char> {
    match mode {
        Mode::Plan => "You are in **PLAN mode**. Suggest changes only. Do NOT call write_file, write_lines, git_add, or git_commit.\n"@,
        Mode::Build => "You are in **BUILD mode**. You may read and write files and run git commands.\n"@,
    }
}

/// The full system prompt of a session.
pub open spec fn system_prompt_text(
    base: Seq<char>,
    cfg: McpConfig,
    mode: Mode,
    agents_md: Option<Seq<char>>,
) -> Seq<char> {
    base + "\n\n## Available Tools\n\n"@
        + "You have access to these tools. Call them using XML tags:\n"@
        + "<tool_call>{\"tool\": \"TOOL_NAME\", ...args}</tool_call>\n\n"@ + "### File Tools\n"@
        + basic_tool_lines(cfg) + extended_tool_lines() + "\n## Mode\n\n"@ + mode_text(mode) + (
    match agents_md {
        Some(a) => "\n## Project Context (AGENTS.md)\n\n"@ + a,
        None => Seq::empty(),
    })
}

fn basic_tools_exec(cfg: &McpConfig) -> (s: String)
    ensures
        s@ == basic_tool_lines(*cfg),
{
    let mut s = String::new();
    if cfg.read_file {
        s.append("- read_file(path) — read file contents\n");
    }
    if cfg.write_file {
        s.append("- write_file(path, content) — create or overwrite a file\n");
    }
    if cfg.list_dir {
        s.append("- list_dir(path?) — list directory\n");
    }
    if cfg.search_files {
        s.append("- search_files(pattern, path?) — find files by name\n");
    }
    if cfg.get_cwd {
        s.append("- get_cwd() — current working directory\n");
    }
    if cfg.run_shell {
        s.append("- run_shell(command) — run shell command\n");
    }
    assert(s@ =~= basic_tool_lines(*cfg));
    s
}

fn extended_tools_exec() -> (s: String)
    ensures
        s@ == extended_tool_lines(),
{
    let mut s = String::new();
    s.append("- read_lines(path, start, end) — read specific lines\n");
    s.append("- write_lines(path, content) — write file content\n");
    s.append("- grep_code(pattern, path?) — search code with grep\n");
    s.append("- find_files(pattern) — find files matching pattern\n");
    s.append("\n### Git Tools\n");
    s.append("- git_status() — show working tree status\n");
    s.append("- git_diff(path?) — show uncommitted changes\n");
    s.append("- git_log(n?) — recent commit history\n");
    s.append("- git_add(path?) — stage changes\n");
    s.append("- git_commit(message) — commit staged changes\n");
    s.append("- git_branch() — current branch name\n");
    s
}

fn mode_text_exec(mode: Mode) -> (s: &'static str)
    ensures
        s@ == mode_text(mode),
{
    match mode {
        Mode::Plan => "You are in **PLAN mode**. Suggest changes only. Do NOT call write_file, write_lines, git_add, or git_commit.\n",
        Mode::Build => "You are in **BUILD mode**. You may read and write files and run git commands.\n",
    }
}

/// The system prompt: the session's base prompt, the tools the model may
/// call, the mode, and the project's AGENTS.md if there is one.
pub fn build_system_prompt(app: &App) -> (s: String)
    ensures
        s@ == system_prompt_text(
            app.system_prompt@,
            app.mcp_cfg,
            app.mode,
            match app.agents_md {
                Some(a) => Some(a@),
                None => None,
            },
        ),
{
    let mut s = app.system_prompt.clone();
    s.append("\n\n## Available Tools\n\n");
    s.append("You have access to these tools. Call them using XML tags:\n");
    s.append("<tool_call>{\"tool\": \"TOOL_NAME\", ...args}</tool_call>\n\n");
    s.append("### File Tools\n");
    let basic = basic_tools_exec(&app.mcp_cfg);
    s.append(basic.as_str());
    let extended = extended_tools_exec();
    s.append(extended.as_str());
    s.append("\n## Mode\n\n");
    s.append(mode_text_exec(app.mode));
    match &app.agents_md {
        Some(agents) => {
            s.append("\n## Project Context (AGENTS.md)\n\n");
            s.append(agents.as_str());
        },
        None => {},
    }
    assert(s@ =~= system_prompt_text(
        app.system_prompt@,
        app.mcp_cfg,
        app.mode,
        match app.agents_md {
            Some(a) => Some(a@),
            None => None,
        },
    ));
    s
}

/// The messages of a conversation that the model sees: all but the
/// application's own notices.
pub open spec fn dialogue(msgs: Seq<Message>) -> Seq<Message>
    decreases msgs.len(),
{
    if msgs.len() == 0 {
        Seq::empty()
    } else if msgs.last().role == Role::System {
        dialogue(msgs.drop_last())
    } else {
        dialogue(msgs.drop_last()).push(msgs.last())
    }
}

/// How many of the newest messages a prompt carries.
pub const HISTORY_TURNS: usize = 30;

/// `s` without its first `n` elements (empty when it has no more).
pub open spec fn drop_front<T>(s: Seq<T>, n: int) -> Seq<T> {
    if n >= s.len() {
        Seq::empty()
    } else {
        s.skip(n)
    }
}

/// The number of leading elements to drop to keep the newest `keep`.
pub open spec fn excess(len: nat, keep: nat) -> int {
    if len > keep {
        len - keep
    } else {
        0
    }
}

/// The tag under which a message of `role` appears in a prompt.
pub open spec fn role_tag(role: Role) -> Seq<char> {
    match role {
        Role::User => "user"@,
        Role::Assistant => "assistant"@,
        Role::Tool => "tool_result"@,
        Role::System => Seq::empty(),
    }
}

/// One message as a prompt block: `<tag>\n{content}\n</tag>\n\n`.
pub open spec fn turn_text(m: Message) -> Seq<char> {
    "<"@ + role_tag(m.role) + ">\n"@ + m.content@ + "\n</"@ + role_tag(m.role) + ">\n\n"@
}

/// The prompt blocks of `msgs`, in order.
pub open spec fn turns_text(msgs: Seq<Message>) -> Seq<char>
    decreases msgs.len(),
{
    if msgs.len() == 0 {
        Seq::empty()
    } else {
        turns_text(msgs.drop_last()) + turn_text(msgs.last())
    }
}

/// The prompt of the next turn: the newest thirty messages of the dialogue,
/// then an open assistant turn.
pub open spec fn prompt_text(msgs: Seq<Message>) -> Seq<char> {
    let d = dialogue(msgs);
    turns_text(drop_front(d, excess(d.len(), HISTORY_TURNS as nat))) + "<assistant>\n"@
}

fn role_tag_exec(role: Role) -> (t: &'static str)
    requires
        role != Role::System,
    ensures
        t@ == role_tag(role),
{
    match role {
        Role::User => "user",
        Role::Assistant => "assistant",
        Role::Tool => "tool_result",
        Role::System => "",
    }
}

/// The prompt for the model: the newest thirty non-notice messages as
/// tagged blocks, then an open `<assistant>` turn.
pub fn build_prompt(app: &App) -> (prompt: String)
    ensures
        prompt@ == prompt_text(app.messages@),
{
    let msgs = &app.messages;
    let ghost all = msgs@;
    // First pass: how long the dialogue is.
    let mut n: usize = 0;
    let mut i: usize = 0;
    while i < msgs.len()
        invariant
            i <= msgs@.len(),
            msgs@ == all,
            n == dialogue(all.take(i as int)).len(),
            n <= i,
        decreases msgs@.len() - i,
    {
        proof {
            assert(all.take(i as int + 1).drop_last() =~= all.take(i as int));
        }
        if msgs[i].role != Role::System {
            n = n + 1;
        }
        i = i + 1;
    }
    assert(all.take(all.len() as int) =~= all);
    let skip: usize = if n > HISTORY_TURNS {
        n - HISTORY_TURNS
    } else {
        0
    };
    // Second pass: the blocks of the newest turns.
    let mut prompt = String::new();
    let mut seen: usize = 0;
    i = 0;
    assert(all.take(0) =~= Seq::<Message>::empty());
    while i < msgs.len()
        invariant
            i <= msgs@.len(),
            msgs@ == all,
            seen == dialogue(all.take(i as int)).len(),
            seen <= i,
            prompt@ == turns_text(drop_front(dialogue(all.take(i as int)), skip as int)),
        decreases msgs@.len() - i,
    {
        let ghost d = dialogue(all.take(i as int));
        proof {
            assert(all.take(i as int + 1).drop_last() =~= all.take(i as int));
            assert(all.take(i as int + 1).last() == all[i as int]);
        }
        let m = &msgs[i];
        if m.role != Role::System {
            if seen >= skip {
                let tag = role_tag_exec(m.role);
                prompt.append("<");
                prompt.append(tag);
                prompt.append(">\n");
                prompt.append(m.content.as_str());
                prompt.append("\n</");
                prompt.append(tag);
                prompt.append(">\n\n");
                proof {
                    let d2 = d.push(*m);
                    assert(drop_front(d2, skip as int) =~= drop_front(d, skip as int).push(*m));
                    assert(drop_front(d2, skip as int).drop_last() =~= drop_front(d, skip as int));
                }
            } else {
                proof {
                    let d2 = d.push(*m);
                    assert(drop_front(d2, skip as int) =~= Seq::<Message>::empty());
                    assert(drop_front(d, skip as int) =~= Seq::<Message>::empty());
                }
            }
            seen = seen + 1;
        }
        i = i + 1;
    }
    prompt.append("<assistant>\n");
    prompt
}

/// Whether `name` is one of the tools that change the project (or can, like
/// `run_shell`); these are blocked in Plan mode.
pub open spec fn is_mutating(name: Seq<char>) -> bool {
    name == "write_file"@ || name == "write_lines"@ || name == "apply_diff"@ || name
        == "git_add"@ || name == "git_commit"@ || name == "run_shell"@
}

/// Whether the tool `name` may change the project.
pub fn is_mutating_tool(name: &str) -> (r: bool)
    ensures
        r == is_mutating(name@),
{
    str_eq(name, "write_file") || str_eq(name, "write_lines") || str_eq(name, "apply_diff")
        || str_eq(name, "git_add") || str_eq(name, "git_commit") || str_eq(name, "run_shell")
}

/// The answer to a tool call that Plan mode blocks.
pub open spec fn blocked_text() -> Seq<char> {
    "blocked: Plan mode is read-only (switch with /build)"@
}

/// What stands before every tool call: in Plan mode a call of a mutating
/// tool is answered with a failed result and never runs; every other call
/// may run (`None`).
pub fn plan_gate(tool: &str, mode: Mode) -> (r: Option<ToolResult>)
    ensures
        (mode == Mode::Plan && is_mutating(tool@)) <==> r is Some,
        r matches Some(res) ==> res.tool@ == tool@ && !res.ok && res.content@ == blocked_text(),
{
    if mode == Mode::Plan && is_mutating_tool(tool) {
        Some(
            ToolResult {
                tool: tool.to_owned(),
                ok: false,
                content: "blocked: Plan mode is read-only (switch with /build)".to_owned(),
            },
        )
    } else {
        None
    }
}

/// The block in which one tool result goes back to the model, its content
/// cut to its first `MAX_TOOL_RESULT_CHARS` characters.
pub open spec fn result_entry(tool: Seq<char>, ok: bool, content: Seq<char>) -> Seq<char> {
    "<tool_result>\n"@ + tool + " ("@ + (if ok {
        "ok"@
    } else {
        "error"@
    }) + "):\n"@ + content.take(
        if MAX_TOOL_RESULT_CHARS < content.len() {
            MAX_TOOL_RESULT_CHARS as int
        } else {
            content.len() as int
        },
    ) + "\n</tool_result>\n"@
}


/// Formats one tool result for the model's next round.
pub fn tool_result_entry(result: &ToolResult) -> (s: String)
    ensures
        s@ == result_entry(result.tool@, result.ok, result.content@),
{
    let mut s = String::new();
    s.append("<tool_result>\n");
    s.append(result.tool.as_str());
    s.append(" (");
    s.append(status_word(result.ok));
    s.append("):\n");
    let content = take_chars(result.content.as_str(), MAX_TOOL_RESULT_CHARS);
    s.append(content.as_str());
    s.append("\n</tool_result>\n");
    s
}

/// What the turn does once a round's reply is in.
#[derive(Debug, Clone, Copy, PartialEq, Eq, Structural)]
pub enum RoundStep {
    /// The reply called no tool: it is the turn's answer.
    Answer,
    /// The tools ran, but the stand-in for the model cannot read their
    /// results: the turn ends with an empty answer.
    EndEmpty,
    /// The round limit is reached: the turn ends with a note saying so.
    Stop,
    /// The tool results go back to the model for another round.
    Continue,
}

/// How the turn goes on after round `round` (counted from zero), whose
/// reply called `calls` tools, with or without a real model.
pub open spec fn round_outcome(round: nat, calls: nat, has_model: bool) -> RoundStep {
    if calls == 0 {
        RoundStep::Answer
    } else if !has_model {
        RoundStep::EndEmpty
    } else if round + 1 == MAX_TOOL_ROUNDS {
        RoundStep::Stop
    } else {
        RoundStep::Continue
    }
}

/// A turn never goes on past its last round: whatever the last round's
/// reply, the turn ends there; and only a reply that calls tools, answered
/// by a real model, leads to another round.
pub proof fn law_turn_ends_by_the_last_round(round: nat, calls: nat, has_model: bool)
    requires
        round < MAX_TOOL_ROUNDS,
    ensures
        round + 1 == MAX_TOOL_ROUNDS ==> round_outcome(round, calls, has_model) != RoundStep::Continue,
        round_outcome(round, calls, has_model) == RoundStep::Continue ==> calls > 0 && has_model && round + 1
            < MAX_TOOL_ROUNDS,
{
}

/// Decides how the turn goes on after round `round` (counted from zero),
/// whose reply called `calls` tools, with or without a real model.
pub fn round_step(round: usize, calls: usize, has_model: bool) -> (step: RoundStep)
    requires
        round < MAX_TOOL_ROUNDS,
    ensures
        step == round_outcome(round as nat, calls as nat, has_model),
{
    if calls == 0 {
        RoundStep::Answer
    } else if !has_model {
        RoundStep::EndEmpty
    } else if round + 1 == MAX_TOOL_ROUNDS {
        RoundStep::Stop
    } else {
        RoundStep::Continue
    }
}

/// The answer of a turn stopped by the round limit.
pub fn rounds_exhausted_text() -> (s: String)
    ensures
        s@ == "(stopped after 8 tool rounds)"@,
{
    "(stopped after 8 tool rounds)".to_owned()
}

/// Appends a round to the transcript: the model's reply closes its turn,
/// the tool results follow, and a new assistant turn opens.
pub fn extend_transcript(transcript: &mut String, response: &str, results: &str)
    ensures
        final(transcript)@ == old(transcript)@ + response@ + "\n</assistant>\n\n"@ + results@
            + "\n<assistant>\n"@,
{
    transcript.append(response);
    transcript.append("\n</assistant>\n\n");
    transcript.append(results);
    transcript.append("\n<assistant>\n");
}

} // verus!
