//! What the terminal interface does with key presses, slash commands and the
//! events of a running agent turn. Drawing and reading the terminal belong to
//! the application; every change of session state is decided here.

use vstd::prelude::*;
use vstd::utf8::encode_utf8;

use crate::code::agent::AgentEvent;
use crate::code::app::{
    action_view, batch_actions, batch_summary, cursor_on_boundary, redone, same_but_input, undone, App,
    FileAction, FileChange, Message, Mode, Role,
};
use crate::text::{
    str_eq, decimal, lemma_boundary_is_char_offset, lemma_char_offset_is_boundary,
    lemma_encode_utf8_concat, lemma_trim_end_char_prefix, lowercase, split_at_boundary,
    to_lowercase, trim, trim_end_char, trim_end_matches_char, trim_ws, usize_to_decimal,
    utf8_len, lemma_utf8_offset_increasing,
};

verus! {

/// Where the last word before the end of `t` starts: just after its last
/// space, or at 0.
pub open spec fn word_start(t: Seq<char>) -> int
    decreases t.len(),
{
    if t.len() == 0 {
        0
    } else if t.last() == ' ' {
        t.len() as int
    } else {
        word_start(t.drop_last())
    }
}

proof fn lemma_word_start_bounds(t: Seq<char>)
    ensures
        0 <= word_start(t) <= t.len(),
    decreases t.len(),
{
    if t.len() > 0 && t.last() != ' ' {
        lemma_word_start_bounds(t.drop_last());
    }
}

/// Deletes the word before the cursor (Ctrl+W): the spaces right before the
/// cursor and the run of other characters before them.
pub fn delete_last_word(app: &mut App)
    requires
        cursor_on_boundary(old(app).input@, old(app).cursor_pos),
    ensures
        exists|k: int|
            0 <= k <= old(app).input@.len() && #[trigger] utf8_len(old(app).input@.take(k))
                == old(app).cursor_pos && ({
                let j = word_start(trim_end_char(old(app).input@.take(k), ' '));
                &&& final(app).input@ == old(app).input@.take(j) + old(app).input@.skip(k)
                &&& final(app).cursor_pos == utf8_len(old(app).input@.take(j))
            }),
        cursor_on_boundary(final(app).input@, final(app).cursor_pos),
        final(app).messages == old(app).messages,
        final(app).mode == old(app).mode,
        final(app).scroll == old(app).scroll,
        final(app).undo_stack == old(app).undo_stack,
        final(app).redo_stack == old(app).redo_stack,
{
    let ghost s = app.input@;
    let cursor = app.cursor_pos;
    let (left, right) = split_at_boundary(app.input.as_str(), app.cursor_pos);
    let ghost k = left@.len() as int;
    proof {
        assert(s.take(k) =~= left@);
        assert(s.skip(k) =~= right@);
    }
    let trimmed = trim_end_matches_char(left, ' ');
    proof {
        lemma_trim_end_char_prefix(left@, ' ');
        lemma_word_start_bounds(trimmed@);
    }
    let n = trimmed.as_str().unicode_len();
    let mut j: usize = n;
    assert(trimmed@.take(n as int) =~= trimmed@);
    while j > 0 && trimmed.as_str().get_char(j - 1) != ' '
        invariant
            j <= n,
            n == trimmed@.len(),
            word_start(trimmed@.take(j as int)) == word_start(trimmed@),
        decreases j,
    {
        proof {
            assert(trimmed@.take(j as int - 1) =~= trimmed@.take(j as int).drop_last());
        }
        j = j - 1;
    }
    proof {
        assert(trimmed@.take(n as int) =~= trimmed@);
        if j > 0 {
            assert(trimmed@.take(j as int).last() == trimmed@[j as int - 1]);
        }
        assert(word_start(trimmed@.take(j as int)) == j);
        assert(trimmed@.take(j as int) =~= left@.take(j as int));
        assert(s.take(j as int) =~= left@.take(j as int));
    }
    let kept = left.substring_char(0, j);
    let mut input = kept.to_owned();
    input.append(right);
    let pos = kept.len();
    proof {
        assert(input@ =~= s.take(j as int) + s.skip(k));
        lemma_char_offset_is_boundary(input@, j as int);
        assert(input@.take(j as int) =~= s.take(j as int));
    }
    proof {
        assert(kept@ =~= s.take(j as int));
        assert(utf8_len(s.take(k)) == cursor);
        lemma_utf8_offset_increasing(s, j as int, k);
        assert(pos == utf8_len(s.take(j as int)));
        assert(word_start(trim_end_char(s.take(k), ' ')) == j);
    }
    app.input = input;
    app.cursor_pos = pos;
}

/// A key press, as far as the interface tells keys apart.
#[derive(Debug, Clone, Copy, PartialEq, Eq, Structural)]
pub enum KeyPress {
    /// A character typed without modifier.
    Char(char),
    /// A character typed with Shift.
    ShiftChar(char),
    /// A character typed with Ctrl.
    Ctrl(char),
    Tab,
    Enter,
    Backspace,
    Left,
    Right,
    PageUp,
    PageDown,
    Esc,
    /// Any other key or combination.
    Other,
}

/// What the application does after a slash command.
#[derive(Debug, Clone)]
pub enum SlashOutcome {
    /// Nothing more.
    Done,
    /// Scan the project and write AGENTS.md, then report with `init_done` or
    /// `init_failed`.
    Init,
    /// Apply these file actions, in order (an undo or redo).
    Files(Vec<FileAction>),
}

/// What the application does after a key press.
#[derive(Debug, Clone)]
pub enum KeyOutcome {
    /// Nothing more.
    Continue,
    /// Leave the interface.
    Quit,
    /// A slash command ran; carry out its outcome.
    Slash(SlashOutcome),
    /// The user sent this message: expand its `@file` mentions, start the
    /// turn with `begin_turn`, and run the agent.
    Submit(String),
}

/// The list of commands and shortcuts shown by `/help`.
pub const HELP_TEXT: &'static str = "Commands:
  /init         — scan project, create AGENTS.md
  /plan         — switch to Plan mode (suggest only, no writes)
  /build        — switch to Build mode (can apply changes)
  /undo         — undo last file change batch
  /redo         — redo last undone batch
  /diff         — show pending file changes
  /mcp          — show MCP tool status
  /model        — show model info
  /clear        — clear conversation
  /exit         — quit

Shortcuts:
  Tab           — toggle Plan/Build mode
  PageUp/Down   — scroll conversation
  Ctrl+D/U      — scroll down/up
  Ctrl+W        — delete last word
  @path/to/file — inline file contents into message";

/// The part of a command before its first space.
pub open spec fn first_word(cmd: Seq<char>) -> Seq<char>
    decreases cmd.len(),
{
    if cmd.len() == 0 {
        Seq::empty()
    } else if cmd[0] == ' ' {
        Seq::empty()
    } else {
        seq![cmd[0]] + first_word(cmd.drop_first())
    }
}

/// `"1"` for on, `"0"` for off.
pub open spec fn bit(b: bool) -> Seq<char> {
    if b {
        "1"@
    } else {
        "0"@
    }
}

/// Number of recorded changes over all batches.
pub open spec fn total_changes(stack: Seq<Vec<FileChange>>) -> nat
    decreases stack.len(),
{
    if stack.len() == 0 {
        0
    } else {
        total_changes(stack.drop_last()) + stack.last()@.len()
    }
}

/// The paths of all recorded changes, batch after batch.
pub open spec fn changed_paths(stack: Seq<Vec<FileChange>>) -> Seq<Seq<char>>
    decreases stack.len(),
{
    if stack.len() == 0 {
        Seq::empty()
    } else {
        changed_paths(stack.drop_last()) + stack.last()@.map_values(|c: FileChange| c.path@)
    }
}

/// `parts` joined with `sep` between them.
pub open spec fn join(parts: Seq<Seq<char>>, sep: Seq<char>) -> Seq<char>
    decreases parts.len(),
{
    if parts.len() == 0 {
        Seq::empty()
    } else if parts.len() == 1 {
        parts[0]
    } else {
        join(parts.drop_last(), sep) + sep + parts.last()
    }
}

/// The notice of `/mcp`.
pub open spec fn mcp_status_text(app: App) -> Seq<char> {
    "MCP: read="@ + bit(app.mcp_cfg.read_file) + " write="@ + bit(app.mcp_cfg.write_file)
        + " list="@ + bit(app.mcp_cfg.list_dir) + " search="@ + bit(app.mcp_cfg.search_files)
        + " cwd="@ + bit(app.mcp_cfg.get_cwd) + " shell="@ + bit(app.mcp_cfg.run_shell)
}

/// The notice of `/diff`.
pub open spec fn diff_text(stack: Seq<Vec<FileChange>>) -> Seq<char> {
    if stack.len() == 0 {
        "No pending file changes."@
    } else {
        decimal(total_changes(stack)) + " change(s) in: "@ + join(changed_paths(stack), ", "@)
    }
}

/// The session after a notice with `content` from `role` was added.
pub open spec fn with_notice(old_app: App, new_app: App, role: Role, content: Seq<char>) -> bool {
    &&& new_app.messages@.len() == old_app.messages@.len() + 1
    &&& new_app.messages@.take(old_app.messages@.len() as int) == old_app.messages@
    &&& new_app.messages@.last().role == role
    &&& new_app.messages@.last().content@ == content
}

/// Everything but the conversation, the mode, the quit flag, the project
/// context (`agents_md`) and the history stacks is as it was.
pub open spec fn rest_kept(old_app: App, new_app: App) -> bool {
    &&& new_app.input == old_app.input
    &&& new_app.cursor_pos == old_app.cursor_pos
    &&& new_app.model_name == old_app.model_name
    &&& new_app.system_prompt == old_app.system_prompt
    &&& new_app.mcp_cfg == old_app.mcp_cfg
    &&& new_app.model_loaded == old_app.model_loaded
    &&& new_app.generating == old_app.generating
    &&& new_app.project_root == old_app.project_root
    &&& new_app.stream_buf == old_app.stream_buf
    &&& new_app.status_msg == old_app.status_msg
}

/// Mode, quit flag and history stacks are as they were.
pub open spec fn controls_kept(old_app: App, new_app: App) -> bool {
    &&& new_app.mode == old_app.mode
    &&& new_app.should_quit == old_app.should_quit
    &&& new_app.undo_stack@ == old_app.undo_stack@
    &&& new_app.redo_stack@ == old_app.redo_stack@
}

/// A command that only adds a notice.
pub open spec fn notice_only(old_app: App, new_app: App, out: SlashOutcome, role: Role, content: Seq<char>) -> bool {
    &&& controls_kept(old_app, new_app)
    &&& out is Done
    &&& with_notice(old_app, new_app, role, content)
}

/// What slash command `name` (already in lower case) of the command line
/// `cmd` does to the session and what it leaves to the application.
pub open spec fn slash_effect(old_app: App, new_app: App, name: Seq<char>, cmd: Seq<char>, out: SlashOutcome) -> bool {
    &&& rest_kept(old_app, new_app)
    &&& new_app.scroll == usize::MAX
    &&& new_app.agents_md == old_app.agents_md
    &&& if name == "/exit"@ || name == "/quit"@ {
        &&& new_app.should_quit
        &&& new_app.messages == old_app.messages
        &&& new_app.mode == old_app.mode
        &&& new_app.undo_stack@ == old_app.undo_stack@
        &&& new_app.redo_stack@ == old_app.redo_stack@
        &&& out is Done
    } else if name == "/clear"@ {
        &&& controls_kept(old_app, new_app)
        &&& out is Done
        &&& new_app.messages@.len() == 1
        &&& new_app.messages@[0].role == Role::System
        &&& new_app.messages@[0].content@ == "Conversation cleared."@
    } else if name == "/plan"@ || name == "/build"@ {
        &&& new_app.mode == (if name == "/plan"@ { Mode::Plan } else { Mode::Build })
        &&& new_app.should_quit == old_app.should_quit
        &&& new_app.undo_stack@ == old_app.undo_stack@
        &&& new_app.redo_stack@ == old_app.redo_stack@
        &&& out is Done
        &&& with_notice(old_app, new_app, Role::System, if name == "/plan"@ {
            "Switched to PLAN mode."@
        } else {
            "Switched to BUILD mode."@
        })
    } else if name == "/init"@ {
        &&& controls_kept(old_app, new_app)
        &&& out is Init
        &&& with_notice(old_app, new_app, Role::System, "Scanning project…"@)
    } else if name == "/undo"@ {
        &&& new_app.mode == old_app.mode
        &&& new_app.should_quit == old_app.should_quit
        &&& if old_app.undo_stack@.len() == 0 {
            notice_only(old_app, new_app, out, Role::System, "Nothing to undo."@)
        } else {
            &&& (new_app.undo_stack@, new_app.redo_stack@) == undone(old_app.undo_stack@, old_app.redo_stack@)
            &&& out matches SlashOutcome::Files(actions) && actions@.map_values(|a: FileAction| action_view(a))
                == batch_actions(old_app.undo_stack@.last()@, true)
            &&& with_notice(old_app, new_app, Role::System, "↩ Undid: "@ + batch_summary(old_app.undo_stack@.last()@, true))
        }
    } else if name == "/redo"@ {
        &&& new_app.mode == old_app.mode
        &&& new_app.should_quit == old_app.should_quit
        &&& if old_app.redo_stack@.len() == 0 {
            notice_only(old_app, new_app, out, Role::System, "Nothing to redo."@)
        } else {
            &&& (new_app.undo_stack@, new_app.redo_stack@) == redone(old_app.undo_stack@, old_app.redo_stack@)
            &&& out matches SlashOutcome::Files(actions) && actions@.map_values(|a: FileAction| action_view(a))
                == batch_actions(old_app.redo_stack@.last()@, false)
            &&& with_notice(old_app, new_app, Role::System, "↪ Redid: "@ + batch_summary(old_app.redo_stack@.last()@, false))
        }
    } else if name == "/diff"@ {
        notice_only(old_app, new_app, out, Role::System, diff_text(old_app.undo_stack@))
    } else if name == "/mcp"@ {
        notice_only(old_app, new_app, out, Role::System, mcp_status_text(old_app))
    } else if name == "/model"@ {
        notice_only(old_app, new_app, out, Role::System, "Model: "@ + old_app.model_name@ + " ("@
            + (if old_app.model_loaded { "loaded"@ } else { "not loaded"@ }) + ")"@)
    } else if name == "/help"@ {
        notice_only(old_app, new_app, out, Role::System, HELP_TEXT@)
    } else {
        notice_only(old_app, new_app, out, Role::Tool, "Unknown command: "@ + cmd + "  (try /help)"@)
    }
}

} // verus!

verus! {

/// Adds a notice to the conversation.
fn push_notice(app: &mut App, role: Role, content: String)
    ensures
        with_notice(*old(app), *final(app), role, content@),
        final(app).messages@ == old(app).messages@.push(Message { role, content }),
        final(app).mode == old(app).mode,
        final(app).input == old(app).input,
        final(app).cursor_pos == old(app).cursor_pos,
        final(app).scroll == old(app).scroll,
        final(app).should_quit == old(app).should_quit,
        final(app).model_name == old(app).model_name,
        final(app).system_prompt == old(app).system_prompt,
        final(app).mcp_cfg == old(app).mcp_cfg,
        final(app).model_loaded == old(app).model_loaded,
        final(app).stream_buf == old(app).stream_buf,
        final(app).generating == old(app).generating,
        final(app).project_root == old(app).project_root,
        final(app).agents_md == old(app).agents_md,
        final(app).undo_stack == old(app).undo_stack,
        final(app).redo_stack == old(app).redo_stack,
        final(app).status_msg == old(app).status_msg,
{
    app.messages.push(Message { role, content });
    assert(app.messages@.take(old(app).messages@.len() as int) =~= old(app).messages@);
}

fn bit_str(b: bool) -> (s: &'static str)
    ensures
        s@ == bit(b),
{
    if b {
        "1"
    } else {
        "0"
    }
}

/// The notice of `/diff` for the undo stack `stack`.
fn diff_notice(stack: &Vec<Vec<FileChange>>) -> (s: String)
    requires
        total_changes(stack@) <= usize::MAX,
    ensures
        s@ == diff_text(stack@),
{
    if stack.len() == 0 {
        return "No pending file changes.".to_owned();
    }
    let mut count: usize = 0;
    let mut files = String::new();
    let mut first = true;
    let mut b: usize = 0;
    assert(stack@.take(0) =~= Seq::<Vec<FileChange>>::empty());
    while b < stack.len()
        invariant
            b <= stack@.len(),
            total_changes(stack@) <= usize::MAX,
            count == total_changes(stack@.take(b as int)),
            files@ == join(changed_paths(stack@.take(b as int)), ", "@),
            first == (changed_paths(stack@.take(b as int)).len() == 0),
        decreases stack@.len() - b,
    {
        let batch = &stack[b];
        let ghost before = changed_paths(stack@.take(b as int));
        proof {
            let t = stack@.take(b as int + 1);
            assert(t.drop_last() =~= stack@.take(b as int));
            assert(t.last() == stack@[b as int]);
            lemma_total_changes_prefix(stack@, b as int + 1);
        }
        let mut i: usize = 0;
        while i < batch.len()
            invariant
                i <= batch@.len(),
                files@ == join(before + batch@.take(i as int).map_values(|c: FileChange| c.path@), ", "@),
                first == ((before + batch@.take(i as int).map_values(|c: FileChange| c.path@)).len() == 0),
            decreases batch@.len() - i,
        {
            let ghost parts = before + batch@.take(i as int).map_values(|c: FileChange| c.path@);
            proof {
                assert(before + batch@.take(i as int + 1).map_values(|c: FileChange| c.path@) =~= parts.push(batch@[i as int].path@));
            }
            if !first {
                files.append(", ");
            }
            files.append(batch[i].path.as_str());
            proof {
                let p2 = parts.push(batch@[i as int].path@);
                assert(p2.drop_last() =~= parts);
            }
            first = false;
            i = i + 1;
        }
        proof {
            assert(batch@.take(batch@.len() as int) =~= batch@);
        }
        count = count + batch.len();
        b = b + 1;
    }
    assert(stack@.take(stack@.len() as int) =~= stack@);
    let mut s = usize_to_decimal(count);
    s.append(" change(s) in: ");
    s.append(files.as_str());
    s
}

proof fn lemma_total_changes_prefix(stack: Seq<Vec<FileChange>>, k: int)
    requires
        0 <= k <= stack.len(),
    ensures
        total_changes(stack.take(k)) <= total_changes(stack),
    decreases stack.len(),
{
    if k < stack.len() {
        assert(stack.drop_last().take(k) =~= stack.take(k));
        lemma_total_changes_prefix(stack.drop_last(), k);
    } else {
        assert(stack.take(k) =~= stack);
    }
}

/// Runs the slash command `name` (the command's first word, in lower case)
/// of the command line `cmd`.
pub fn run_slash_command(app: &mut App, name: &str, cmd: &str) -> (out: SlashOutcome)
    requires
        total_changes(old(app).undo_stack@) <= usize::MAX,
    ensures
        slash_effect(*old(app), *final(app), name@, cmd@, out),
{
    let out = if str_eq(name, "/exit") || str_eq(name, "/quit") {
        app.should_quit = true;
        SlashOutcome::Done
    } else if str_eq(name, "/clear") {
        app.messages.clear();
        app.messages.push(Message::system_msg("Conversation cleared."));
        SlashOutcome::Done
    } else if str_eq(name, "/plan") || str_eq(name, "/build") {
        if str_eq(name, "/plan") {
            app.mode = Mode::Plan;
            push_notice(app, Role::System, "Switched to PLAN mode.".to_owned());
        } else {
            app.mode = Mode::Build;
            push_notice(app, Role::System, "Switched to BUILD mode.".to_owned());
        }
        SlashOutcome::Done
    } else if str_eq(name, "/init") {
        push_notice(app, Role::System, "Scanning project…".to_owned());
        SlashOutcome::Init
    } else if str_eq(name, "/undo") {
        match app.undo() {
            Some((actions, summary)) => {
                let mut text = "↩ Undid: ".to_owned();
                text.append(summary.as_str());
                push_notice(app, Role::System, text);
                SlashOutcome::Files(actions)
            },
            None => {
                push_notice(app, Role::System, "Nothing to undo.".to_owned());
                SlashOutcome::Done
            },
        }
    } else if str_eq(name, "/redo") {
        match app.redo() {
            Some((actions, summary)) => {
                let mut text = "↪ Redid: ".to_owned();
                text.append(summary.as_str());
                push_notice(app, Role::System, text);
                SlashOutcome::Files(actions)
            },
            None => {
                push_notice(app, Role::System, "Nothing to redo.".to_owned());
                SlashOutcome::Done
            },
        }
    } else if str_eq(name, "/diff") {
        let text = diff_notice(&app.undo_stack);
        push_notice(app, Role::System, text);
        SlashOutcome::Done
    } else if str_eq(name, "/mcp") {
        let mut text = "MCP: read=".to_owned();
        text.append(bit_str(app.mcp_cfg.read_file));
        text.append(" write=");
        text.append(bit_str(app.mcp_cfg.write_file));
        text.append(" list=");
        text.append(bit_str(app.mcp_cfg.list_dir));
        text.append(" search=");
        text.append(bit_str(app.mcp_cfg.search_files));
        text.append(" cwd=");
        text.append(bit_str(app.mcp_cfg.get_cwd));
        text.append(" shell=");
        text.append(bit_str(app.mcp_cfg.run_shell));
        push_notice(app, Role::System, text);
        SlashOutcome::Done
    } else if str_eq(name, "/model") {
        let mut text = "Model: ".to_owned();
        text.append(app.model_name.as_str());
        text.append(" (");
        text.append(
            if app.model_loaded {
                "loaded"
            } else {
                "not loaded"
            },
        );
        text.append(")");
        push_notice(app, Role::System, text);
        SlashOutcome::Done
    } else if str_eq(name, "/help") {
        push_notice(app, Role::System, HELP_TEXT.to_owned());
        SlashOutcome::Done
    } else {
        let mut text = "Unknown command: ".to_owned();
        text.append(cmd);
        text.append("  (try /help)");
        push_notice(app, Role::Tool, text);
        SlashOutcome::Done
    };
    app.scroll = usize::MAX;
    out
}

proof fn lemma_first_word(s: Seq<char>, k: int)
    requires
        0 <= k <= s.len(),
        forall|t: int| 0 <= t < k ==> s[t] != ' ',
        k == s.len() || s[k] == ' ',
    ensures
        first_word(s) == s.take(k),
    decreases k,
{
    if k == 0 {
        assert(s.take(0) =~= Seq::<char>::empty());
    } else {
        let t = s.drop_first();
        assert forall|u: int| 0 <= u < k - 1 implies t[u] != ' ' by {
            assert(t[u] == s[u + 1]);
        }
        lemma_first_word(t, k - 1);
        assert(s.take(k) =~= seq![s[0]] + t.take(k - 1));
    }
}

/// The first word of `cmd`.
fn first_word_of(cmd: &str) -> (r: String)
    ensures
        r@ == first_word(cmd@),
{
    let n = cmd.unicode_len();
    let mut k: usize = 0;
    while k < n && cmd.get_char(k) != ' '
        invariant
            k <= n,
            n == cmd@.len(),
            forall|t: int| 0 <= t < k ==> cmd@[t] != ' ',
        decreases n - k,
    {
        k = k + 1;
    }
    proof {
        lemma_first_word(cmd@, k as int);
    }
    cmd.substring_char(0, k).to_owned()
}

} // verus!

verus! {

/// Runs the slash command typed as `cmd`: its first word, in lower case,
/// names the command.
pub fn handle_slash_command(app: &mut App, cmd: &str) -> (out: SlashOutcome)
    requires
        total_changes(old(app).undo_stack@) <= usize::MAX,
    ensures
        slash_effect(*old(app), *final(app), lowercase(first_word(cmd@)), cmd@, out),
{
    let word = first_word_of(cmd);
    let name = to_lowercase(word.as_str());
    run_slash_command(app, name.as_str(), cmd)
}

/// The notice that the mode changed to `mode`.
pub open spec fn mode_switch_text(mode: Mode) -> Seq<char> {
    "Switched to "@ + (match mode {
        Mode::Plan => "PLAN"@,
        Mode::Build => "BUILD"@,
    }) + " mode"@
}


/// What Enter does: the input line is taken and trimmed; an empty line does
/// nothing more, a line starting with `/` runs as a slash command, and any
/// other line is sent to the agent unless it is still busy (then it is
/// dropped).
pub open spec fn enter_effect(old_app: App, new_app: App, out: KeyOutcome) -> bool {
    let text = trim(old_app.input@);
    exists|mid: App|
        {
            &&& same_but_input(old_app, mid)
            &&& mid.input@ == Seq::<char>::empty()
            &&& mid.cursor_pos == 0
            &&& if text.len() == 0 {
                out is Continue && new_app == mid
            } else if text[0] == '/' {
                out matches KeyOutcome::Slash(s) && slash_effect(
                    mid,
                    new_app,
                    lowercase(first_word(text)),
                    text,
                    s,
                )
            } else if !old_app.generating {
                out matches KeyOutcome::Submit(t) && t@ == text && new_app == mid
            } else {
                out is Continue && new_app == mid
            }
        }
}


/// The characters kept by `trim_end_char` are followed only by `c`, and the
/// last kept one is not `c`.
proof fn lemma_trim_end_char_rest(s: Seq<char>, c: char)
    ensures
        forall|i: int| trim_end_char(s, c).len() <= i < s.len() ==> s[i] == c,
        trim_end_char(s, c).len() > 0 ==> s[trim_end_char(s, c).len() - 1] != c,
    decreases s.len(),
{
    crate::text::lemma_trim_end_char_prefix(s, c);
    if s.len() > 0 && s.last() == c {
        let d = s.drop_last();
        lemma_trim_end_char_rest(d, c);
        crate::text::lemma_trim_end_char_prefix(d, c);
        assert(trim_end_char(s, c) == trim_end_char(d, c));
        assert forall|i: int| trim_end_char(s, c).len() <= i < s.len() implies s[i] == c by {
            if i < d.len() {
                assert(s[i] == d[i]);
            }
        }
        if trim_end_char(s, c).len() > 0 {
            assert(s[trim_end_char(s, c).len() - 1] == d[trim_end_char(d, c).len() - 1]);
        }
    }
}

/// Where `word_start` puts the start of the last word: after a space (or at
/// 0), with no space from there to the end.
proof fn lemma_word_start_space(t: Seq<char>)
    ensures
        0 <= word_start(t) <= t.len(),
        word_start(t) > 0 ==> t[word_start(t) - 1] == ' ',
        forall|i: int| word_start(t) <= i < t.len() ==> t[i] != ' ',
    decreases t.len(),
{
    if t.len() > 0 && t.last() != ' ' {
        let d = t.drop_last();
        lemma_word_start_space(d);
        assert forall|i: int| word_start(t) <= i < t.len() implies t[i] != ' ' by {
            if i < d.len() {
                assert(t[i] == d[i]);
            }
        }
        if word_start(t) > 0 {
            assert(t[word_start(t) - 1] == d[word_start(d) - 1]);
        }
    }
}

/// Ctrl+W deletes exactly the last word before the cursor: of the text `t`
/// before the cursor it keeps `t[..j]`, which is empty or ends in a space,
/// and deletes `t[j..]`, which is one run of non-space characters followed
/// only by spaces; the run is not empty unless everything before the cursor
/// is spaces (then all of it goes).
pub proof fn law_ctrl_w_deletes_one_word(t: Seq<char>)
    ensures
        ({
            let j = word_start(trim_end_char(t, ' '));
            let m = trim_end_char(t, ' ').len() as int;
            &&& 0 <= j <= m <= t.len()
            &&& j > 0 ==> t[j - 1] == ' ' && m > j
            &&& forall|i: int| j <= i < m ==> #[trigger] t[i] != ' '
            &&& forall|i: int| m <= i < t.len() ==> #[trigger] t[i] == ' '
        }),
{
    let r = trim_end_char(t, ' ');
    let m = r.len() as int;
    crate::text::lemma_trim_end_char_prefix(t, ' ');
    lemma_trim_end_char_rest(t, ' ');
    lemma_word_start_space(r);
    let j = word_start(r);
    assert forall|i: int| j <= i < m implies t[i] != ' ' by {
        assert(r[i] == t[i]);
    }
    if j > 0 {
        assert(r[j - 1] == t[j - 1]);
        assert(m > j) by {
            if m == j {
                assert(t[m - 1] != ' ');
            }
        }
    }
    assert(0 <= j <= m <= t.len());
}

/// Handles one key press.
pub fn handle_key(app: &mut App, key: KeyPress) -> (out: KeyOutcome)
    requires
        (key is Char || key is ShiftChar || key is Backspace || key == KeyPress::Ctrl('w'))
            ==> cursor_on_boundary(old(app).input@, old(app).cursor_pos),
        (key is Char || key is ShiftChar) ==> utf8_len(old(app).input@) + 4 <= isize::MAX,
        key is PageDown ==> old(app).scroll + 3 <= usize::MAX,
        key is Right ==> utf8_len(old(app).input@) <= usize::MAX,
        key is Enter ==> total_changes(old(app).undo_stack@) <= usize::MAX,
    ensures
        (key == KeyPress::Ctrl('c') || key is Esc) && old(app).input@.len() == 0 ==> out is Quit
            && final(app).should_quit,
        key is Tab ==> out is Continue && final(app).mode != old(app).mode && with_notice(
            *old(app),
            *final(app),
            Role::System,
            mode_switch_text(final(app).mode),
        ) && final(app).scroll == usize::MAX,
        key is PageUp ==> out is Continue && final(app).scroll == (if old(app).scroll >= 3 {
            old(app).scroll - 3
        } else {
            0
        }),
        key is PageDown ==> out is Continue && final(app).scroll == old(app).scroll + 3,
        key is Enter ==> enter_effect(*old(app), *final(app), out),
        key is Left && old(app).cursor_pos > 0 ==> final(app).cursor_pos == old(app).cursor_pos - 1,
        key is Right && old(app).cursor_pos < utf8_len(old(app).input@) ==> final(app).cursor_pos
            == old(app).cursor_pos + 1,
        key == KeyPress::Ctrl('u') ==> final(app).input@ == Seq::<char>::empty()
            && final(app).cursor_pos == 0,
        key == KeyPress::Ctrl('w') ==> exists|k: int|
            0 <= k <= old(app).input@.len() && #[trigger] utf8_len(old(app).input@.take(k))
                == old(app).cursor_pos && ({
                let j = word_start(trim_end_char(old(app).input@.take(k), ' '));
                &&& final(app).input@ == old(app).input@.take(j) + old(app).input@.skip(k)
                &&& final(app).cursor_pos == utf8_len(old(app).input@.take(j))
            }),
        (key is Char || key is ShiftChar) ==> exists|k: int|
            0 <= k <= old(app).input@.len() && #[trigger] utf8_len(old(app).input@.take(k))
                == old(app).cursor_pos && final(app).input@ == old(app).input@.insert(
                k,
                match key {
                    KeyPress::Char(c) => c,
                    KeyPress::ShiftChar(c) => c,
                    _ => ' ',
                },
            ),
        key is Backspace && old(app).cursor_pos > 0 ==> exists|k: int|
            0 < k <= old(app).input@.len() && #[trigger] utf8_len(old(app).input@.take(k))
                == old(app).cursor_pos && final(app).input@ == old(app).input@.remove(k - 1),
        !(key is Enter) && !(key is Tab) && !((key == KeyPress::Ctrl('c') || key is Esc)
            && old(app).input@.len() == 0) ==> out is Continue && final(app).messages
            == old(app).messages && final(app).mode == old(app).mode,
{
    let quit_key = match key {
        KeyPress::Ctrl(c) => c == 'c',
        KeyPress::Esc => true,
        _ => false,
    };
    if quit_key && app.input.as_str().is_empty() {
        app.should_quit = true;
        return KeyOutcome::Quit;
    }
    match key {
        KeyPress::Tab => {
            app.mode = match app.mode {
                Mode::Plan => Mode::Build,
                Mode::Build => Mode::Plan,
            };
            let mut text = "Switched to ".to_owned();
            text.append(app.mode.label());
            text.append(" mode");
            push_notice(app, Role::System, text);
            app.scroll = usize::MAX;
            KeyOutcome::Continue
        },
        KeyPress::PageUp => {
            app.scroll_up();
            KeyOutcome::Continue
        },
        KeyPress::PageDown => {
            app.scroll_down();
            KeyOutcome::Continue
        },
        KeyPress::Enter => {
            let raw = app.take_input();
            let ghost mid = *app;
            let text = trim_ws(raw.as_str());
            let n = text.as_str().unicode_len();
            if n == 0 {
                assert(enter_effect(*old(app), *app, KeyOutcome::Continue)) by {
                    assert(same_but_input(*old(app), mid));
                }
                return KeyOutcome::Continue;
            }
            if text.as_str().get_char(0) == '/' {
                let s = handle_slash_command(app, text.as_str());
                let out = KeyOutcome::Slash(s);
                assert(enter_effect(*old(app), *app, out)) by {
                    assert(same_but_input(*old(app), mid));
                }
                out
            } else if !app.generating {
                let out = KeyOutcome::Submit(text);
                assert(enter_effect(*old(app), *app, out)) by {
                    assert(same_but_input(*old(app), mid));
                }
                out
            } else {
                assert(enter_effect(*old(app), *app, KeyOutcome::Continue)) by {
                    assert(same_but_input(*old(app), mid));
                }
                KeyOutcome::Continue
            }
        },
        KeyPress::Backspace => {
            app.backspace();
            KeyOutcome::Continue
        },
        KeyPress::Char(c) => {
            app.insert_char(c);
            KeyOutcome::Continue
        },
        KeyPress::ShiftChar(c) => {
            app.insert_char(c);
            KeyOutcome::Continue
        },
        KeyPress::Left => {
            if app.cursor_pos > 0 {
                app.cursor_pos = app.cursor_pos - 1;
            }
            KeyOutcome::Continue
        },
        KeyPress::Right => {
            if app.cursor_pos < app.input.as_str().len() {
                app.cursor_pos = app.cursor_pos + 1;
            }
            KeyOutcome::Continue
        },
        KeyPress::Ctrl(c) => {
            if c == 'w' {
                delete_last_word(app);
            } else if c == 'u' {
                app.input = String::new();
                app.cursor_pos = 0;
            }
            KeyOutcome::Continue
        },
        _ => KeyOutcome::Continue,
    }
}

impl App {
    /// Starts an agent turn for the message `text`: records it, jumps to the
    /// bottom, marks the session busy with an empty stream buffer, and in
    /// Plan mode adds the reminder that the model will only suggest.
    pub fn begin_turn(&mut self, text: String)
        ensures
            final(self).messages@ == old(self).messages@.push(
                Message { role: Role::User, content: text },
            ) + (if old(self).mode == Mode::Plan {
                seq![final(self).messages@.last()]
            } else {
                Seq::empty()
            }),
            old(self).mode == Mode::Plan ==> final(self).messages@.last().role == Role::System
                && final(self).messages@.last().content@
                == "[Plan mode — model will suggest only]"@,
            final(self).generating,
            final(self).stream_buf@ == Seq::<char>::empty(),
            final(self).scroll == usize::MAX,
            final(self).mode == old(self).mode,
            final(self).input == old(self).input,
            final(self).undo_stack == old(self).undo_stack,
            final(self).redo_stack == old(self).redo_stack,
    {
        self.messages.push(Message { role: Role::User, content: text });
        let ghost pushed = self.messages@;
        self.scroll = usize::MAX;
        self.generating = true;
        self.stream_buf = String::new();
        if self.mode == Mode::Plan {
            self.messages.push(Message::system_msg("[Plan mode — model will suggest only]"));
            assert(self.messages@ =~= pushed + seq![self.messages@.last()]);
        } else {
            assert(self.messages@ =~= pushed + Seq::<Message>::empty());
        }
    }

    /// Records the result of `/init`: the project context now comes from the
    /// AGENTS.md written at `path`.
    pub fn init_done(&mut self, path: &str, agents_md: String)
        ensures
            final(self).agents_md == Some(agents_md),
            with_notice(*old(self), *final(self), Role::System, "✓ Created AGENTS.md at "@ + path@),
    {
        self.agents_md = Some(agents_md);
        let mut text = "✓ Created AGENTS.md at ".to_owned();
        text.append(path);
        push_notice(self, Role::System, text);
    }

    /// Records that `/init` could not write AGENTS.md.
    pub fn init_failed(&mut self, error: &str)
        ensures
            final(self).agents_md == old(self).agents_md,
            with_notice(*old(self), *final(self), Role::Tool, "❌ Could not write AGENTS.md: "@ + error@),
    {
        let mut text = "❌ Could not write AGENTS.md: ".to_owned();
        text.append(error);
        push_notice(self, Role::Tool, text);
    }
}

/// Applies one event of a running agent turn to the session; returns whether
/// the turn is over.
pub fn apply_agent_event(app: &mut App, event: AgentEvent) -> (done: bool)
    requires
        event matches AgentEvent::Token(t) ==> old(app).stream_buf@.len() + t@.len() <= usize::MAX,
    ensures
        done == (event is Done || event is Error),
        event matches AgentEvent::Token(t) ==> final(app).stream_buf@ == old(app).stream_buf@ + t@
            && final(app).messages == old(app).messages,
        event matches AgentEvent::ToolCall { name, preview } ==> with_notice(
            *old(app),
            *final(app),
            Role::Tool,
            "🔧 Calling: "@ + name@ + " — "@ + preview@,
        ),
        event matches AgentEvent::ToolResult { name, ok, preview } ==> with_notice(
            *old(app),
            *final(app),
            Role::Tool,
            (if ok { "✓"@ } else { "✗"@ }) + " "@ + name@ + ": "@ + preview@,
        ),
        event matches AgentEvent::FileChanged(fc) ==> final(app).undo_stack@.len()
            == old(app).undo_stack@.len() + 1 && final(app).undo_stack@.drop_last()
            == old(app).undo_stack@ && final(app).undo_stack@.last()@ == seq![fc]
            && final(app).redo_stack@.len() == 0,
        event matches AgentEvent::Done(full) ==> with_notice(
            *old(app),
            *final(app),
            Role::Assistant,
            full@,
        ) && !final(app).generating && final(app).stream_buf@ == Seq::<char>::empty(),
        event matches AgentEvent::Error(e) ==> with_notice(
            *old(app),
            *final(app),
            Role::Tool,
            "❌ Error: "@ + e@,
        ) && !final(app).generating,
        event is Segment ==> final(app).messages == old(app).messages,
{
    match event {
        AgentEvent::Token(t) => {
            app.stream_buf.append(t.as_str());
            app.scroll = usize::MAX;
            false
        },
        AgentEvent::ToolCall { name, preview } => {
            let mut text = "🔧 Calling: ".to_owned();
            text.append(name.as_str());
            text.append(" — ");
            text.append(preview.as_str());
            push_notice(app, Role::Tool, text);
            app.scroll = usize::MAX;
            false
        },
        AgentEvent::ToolResult { name, ok, preview } => {
            let mut text = (if ok {
                "✓"
            } else {
                "✗"
            }).to_owned();
            text.append(" ");
            text.append(name.as_str());
            text.append(": ");
            text.append(preview.as_str());
            push_notice(app, Role::Tool, text);
            app.scroll = usize::MAX;
            false
        },
        AgentEvent::FileChanged(fc) => {
            app.record_changes(vec![fc]);
            false
        },
        AgentEvent::Segment(_) => false,
        AgentEvent::Done(full) => {
            app.stream_buf = String::new();
            push_notice(app, Role::Assistant, full);
            app.generating = false;
            app.scroll = usize::MAX;
            true
        },
        AgentEvent::Error(e) => {
            let mut text = "❌ Error: ".to_owned();
            text.append(e.as_str());
            push_notice(app, Role::Tool, text);
            app.generating = false;
            true
        },
    }
}

} // verus!

verus! {

/// The state of greedy word wrapping: finished lines, the line being
/// filled, and its width in bytes.
pub type WrapState = (Seq<Seq<char>>, Seq<char>, nat);

/// Adds word `w` to the wrapping state: it goes on the current line after a
/// space if it fits in `width` bytes, else it starts a new line.
pub open spec fn wrap_step(state: WrapState, w: Seq<char>, width: nat) -> WrapState {
    let wlen = utf8_len(w);
    let (lines, cur, col) = state;
    let (lines2, cur2, col2) = if col > 0 && col + 1 + wlen > width {
        (lines.push(cur), Seq::<char>::empty(), 0nat)
    } else {
        (lines, cur, col)
    };
    if col2 > 0 {
        (lines2, cur2.push(' ') + w, col2 + 1 + wlen)
    } else {
        (lines2, cur2 + w, col2 + wlen)
    }
}

/// The wrapping state after `words`.
pub open spec fn wrap_words(words: Seq<Seq<char>>, width: nat) -> WrapState
    decreases words.len(),
{
    if words.len() == 0 {
        (Seq::empty(), Seq::empty(), 0)
    } else {
        wrap_step(wrap_words(words.drop_last(), width), words.last(), width)
    }
}

/// The wrapped lines of one input line: an empty line stays one empty
/// line; otherwise its words are wrapped greedily.
pub open spec fn wrap_line(line: Seq<char>, width: nat) -> Seq<Seq<char>> {
    if line.len() == 0 {
        seq![Seq::empty()]
    } else {
        let st = wrap_words(crate::code::stub::ws_words(line), width);
        if st.1.len() > 0 {
            st.0.push(st.1)
        } else {
            st.0
        }
    }
}

/// The wrapped lines of all `lines`, in order.
pub open spec fn wrap_lines(lines: Seq<Seq<char>>, width: nat) -> Seq<Seq<char>>
    decreases lines.len(),
{
    if lines.len() == 0 {
        Seq::empty()
    } else {
        wrap_lines(lines.drop_last(), width) + wrap_line(lines.last(), width)
    }
}

/// `text` wrapped to `width` bytes per line (one empty line at least).
pub open spec fn wrapped(text: Seq<char>, width: nat) -> Seq<Seq<char>> {
    let r = wrap_lines(crate::text::text_lines(text), width);
    if r.len() == 0 {
        seq![Seq::empty()]
    } else {
        r
    }
}

/// What wrapping `words` can add to a line's width at most.
pub open spec fn words_cost(words: Seq<Seq<char>>) -> nat
    decreases words.len(),
{
    if words.len() == 0 {
        0
    } else {
        words_cost(words.drop_last()) + utf8_len(words.last()) + 1
    }
}

/// The largest `words_cost` of the lines of `text`.
pub open spec fn max_line_cost(lines: Seq<Seq<char>>) -> nat
    decreases lines.len(),
{
    if lines.len() == 0 {
        0
    } else {
        let m = max_line_cost(lines.drop_last());
        let c = words_cost(crate::code::stub::ws_words(lines.last()));
        if c > m {
            c
        } else {
            m
        }
    }
}

proof fn lemma_wrap_col_bound(words: Seq<Seq<char>>, width: nat)
    ensures
        wrap_words(words, width).2 <= words_cost(words),
        wrap_words(words, width).2 == utf8_len(wrap_words(words, width).1),
    decreases words.len(),
{
    if words.len() > 0 {
        lemma_wrap_col_bound(words.drop_last(), width);
        let st = wrap_words(words.drop_last(), width);
        let w = words.last();
        if st.2 > 0 && st.2 + 1 + utf8_len(w) > width {
            crate::text::lemma_encode_utf8_concat(Seq::<char>::empty(), w);
            assert(Seq::<char>::empty() + w =~= w);
        } else if st.2 > 0 {
            crate::text::lemma_encode_utf8_concat(st.1.push(' '), w);
            crate::text::lemma_encode_utf8_concat(st.1, seq![' ']);
            assert(st.1 + seq![' '] =~= st.1.push(' '));
            crate::text::lemma_char_utf8_len(' ');
            vstd::utf8::char_is_scalar(' ');
            assert(utf8_len(seq![' ']) == 1) by {
                crate::text::lemma_char_utf8_len(' ');
                assert((' ' as u32) == 32);
            }
        } else {
            crate::text::lemma_encode_utf8_concat(st.1, w);
        }
    } else {
        assert(vstd::utf8::encode_utf8(Seq::<char>::empty()) =~= Seq::<u8>::empty());
    }
}


/// The words of a line are non-empty and hold no white space.
proof fn lemma_ws_words_shape(s: Seq<char>)
    ensures
        forall|k: int| 0 <= k < crate::code::stub::ws_words(s).len() ==> (#[trigger] crate::code::stub::ws_words(s)[k]).len() > 0,
        forall|k: int, i: int|
            0 <= k < crate::code::stub::ws_words(s).len() && 0 <= i < crate::code::stub::ws_words(s)[k].len() ==> !crate::text::is_ws(#[trigger] crate::code::stub::ws_words(s)[k][i]),
    decreases s.len(),
{
    if s.len() > 0 {
        let d = s.drop_last();
        lemma_ws_words_shape(d);
        let r = crate::code::stub::ws_words(d);
        if crate::text::is_ws(s.last()) {
        } else if s.len() >= 2 && !crate::text::is_ws(s[s.len() - 2]) {
            crate::code::stub::lemma_ws_words_nonempty(d);
            assert(d.last() == s[s.len() - 2]);
            let u = r.update(r.len() - 1, r.last().push(s.last()));
            assert forall|k: int, i: int| 0 <= k < u.len() && 0 <= i < u[k].len() implies !crate::text::is_ws(#[trigger] u[k][i]) by {
                if k < r.len() - 1 {
                    assert(u[k] == r[k]);
                } else if i < r.last().len() {
                    assert(u[k][i] == r[r.len() - 1][i]);
                }
            }
        } else {
            let u = r.push(seq![s.last()]);
            assert forall|k: int, i: int| 0 <= k < u.len() && 0 <= i < u[k].len() implies !crate::text::is_ws(#[trigger] u[k][i]) by {
                if k < r.len() {
                    assert(u[k] == r[k]);
                }
            }
        }
    }
}

/// The length of the first word of `l`: its characters before the first
/// space.
pub open spec fn lead_len(l: Seq<char>) -> nat
    decreases l.len(),
{
    if l.len() == 0 || l[0] == ' ' {
        0
    } else {
        1 + lead_len(l.drop_first())
    }
}

/// The first word of `l`.
pub open spec fn lead_word(l: Seq<char>) -> Seq<char> {
    l.take(lead_len(l) as int)
}

proof fn lemma_lead_len_bound(l: Seq<char>)
    ensures
        lead_len(l) <= l.len(),
    decreases l.len(),
{
    if l.len() > 0 && l[0] != ' ' {
        lemma_lead_len_bound(l.drop_first());
    }
}

/// A line followed by a space and more words keeps its first word.
proof fn lemma_lead_after_space(x: Seq<char>, y: Seq<char>)
    ensures
        lead_len(x.push(' ') + y) == lead_len(x) || (x.len() == 0 && lead_len(x.push(' ') + y) == 0),
        x.len() > 0 ==> lead_word(x.push(' ') + y) == lead_word(x) || lead_len(x) == x.len() && lead_word(
            x.push(' ') + y,
        ) == x,
    decreases x.len(),
{
    let z = x.push(' ') + y;
    lemma_lead_len_bound(x);
    if x.len() == 0 {
        assert(z[0] == ' ');
    } else if x[0] == ' ' {
        assert(z[0] == ' ');
    } else {
        lemma_lead_after_space(x.drop_first(), y);
        assert(z.drop_first() =~= x.drop_first().push(' ') + y);
        lemma_lead_len_bound(x.drop_first());
        if x.drop_first().len() == 0 {
            assert(z.drop_first()[0] == ' ');
        }
        assert(lead_len(z) == lead_len(x));
        assert(lead_len(x) <= x.len());
        assert(lead_word(z) =~= lead_word(x));
    }
}

/// A line without spaces is its own first word.
proof fn lemma_lead_no_space(w: Seq<char>)
    requires
        forall|i: int| 0 <= i < w.len() ==> w[i] != ' ',
    ensures
        lead_len(w) == w.len(),
        lead_word(w) == w,
    decreases w.len(),
{
    if w.len() > 0 {
        assert(w[0] != ' ');
        assert forall|i: int| 0 <= i < w.drop_first().len() implies w.drop_first()[i] != ' ' by {
            assert(w.drop_first()[i] == w[i + 1]);
        }
        lemma_lead_no_space(w.drop_first());
    }
    assert(w.take(w.len() as int) =~= w);
}

/// The line after line `a` of the wrapping state: the next finished line,
/// or the line being filled.
pub open spec fn next_line(st: WrapState, a: int) -> Seq<char> {
    if a + 1 < st.0.len() {
        st.0[a + 1]
    } else {
        st.1
    }
}

/// What greedy wrapping keeps true: a line holding a space fits in `width`
/// bytes; a line is closed only when it, a space and the next line's first
/// word would not fit; and once a line is closed the next one is not empty.
pub open spec fn wrap_ok(st: WrapState, width: nat) -> bool {
    &&& forall|a: int| 0 <= a < st.0.len() && (#[trigger] st.0[a]).contains(' ') ==> utf8_len(st.0[a]) <= width
    &&& st.1.contains(' ') ==> utf8_len(st.1) <= width
    &&& forall|a: int|
        0 <= a < st.0.len() ==> utf8_len(#[trigger] st.0[a]) + 1 + utf8_len(lead_word(next_line(st, a)))
            > width
    &&& st.0.len() > 0 ==> st.1.len() > 0
}

proof fn lemma_wrap_ok(words: Seq<Seq<char>>, width: nat)
    requires
        forall|k: int| 0 <= k < words.len() ==> (#[trigger] words[k]).len() > 0,
        forall|k: int, i: int| 0 <= k < words.len() && 0 <= i < words[k].len() ==> #[trigger] words[k][i] != ' ',
    ensures
        wrap_ok(wrap_words(words, width), width),
    decreases words.len(),
{
    if words.len() == 0 {
        return;
    }
    let d = words.drop_last();
    assert forall|k: int, i: int| 0 <= k < d.len() && 0 <= i < d[k].len() implies #[trigger] d[k][i] != ' ' by {
        assert(d[k] == words[k]);
    }
    lemma_wrap_ok(d, width);
    lemma_wrap_col_bound(d, width);
    lemma_wrap_col_bound(words, width);
    let st = wrap_words(d, width);
    let w = words.last();
    assert(w == words[words.len() - 1]);
    assert forall|i: int| 0 <= i < w.len() implies w[i] != ' ' by {
        assert(w[i] == words[words.len() - 1][i]);
    }
    lemma_lead_no_space(w);
    assert(!w.contains(' '));
    let st2 = wrap_words(words, width);
    assert(st2 == wrap_step(st, w, width));
    let (lines, cur, col) = st;
    crate::text::lemma_utf8_len_at_least_chars(cur);
    if col > 0 && col + 1 + utf8_len(w) > width {
        assert(st2.0 == lines.push(cur));
        assert(Seq::<char>::empty() + w =~= w);
        assert(st2.1 == w);
        assert forall|a: int| 0 <= a < st2.0.len() && (#[trigger] st2.0[a]).contains(' ') implies utf8_len(st2.0[a]) <= width by {
            if a < lines.len() {
                assert(st2.0[a] == lines[a]);
            }
        }
        assert forall|a: int| 0 <= a < st2.0.len() implies utf8_len(#[trigger] st2.0[a]) + 1 + utf8_len(lead_word(next_line(st2, a))) > width by {
            if a < lines.len() {
                assert(st2.0[a] == lines[a]);
                if a + 1 < lines.len() {
                    assert(next_line(st2, a) == lines[a + 1]);
                } else {
                    assert(next_line(st2, a) == cur);
                }
            } else {
                assert(next_line(st2, a) == w);
            }
        }
    } else if col > 0 {
        let c2 = cur.push(' ') + w;
        assert(st2.0 == lines && st2.1 == c2);
        assert(c2.len() > 0);
        lemma_lead_after_space(cur, w);
        assert(cur.len() > 0);
        assert forall|a: int| 0 <= a < st2.0.len() implies utf8_len(#[trigger] st2.0[a]) + 1 + utf8_len(lead_word(next_line(st2, a))) > width by {
            if a + 1 >= lines.len() {
                assert(next_line(st, a) == cur);
                if lead_word(c2) != lead_word(cur) {
                    assert(lead_word(c2) == cur);
                    assert(lead_len(cur) == cur.len());
                    assert(lead_word(cur) =~= cur);
                }
            }
        }
    } else {
        assert(cur.len() == 0);
        assert(lines.len() == 0);
        assert(cur + w =~= w);
        assert(st2.1 == w);
    }
}

/// The lines of one input line, wrapped: every line holding a space fits in
/// `width` bytes, and each line ends only where it, a space and the first
/// word of the next line would not fit (greedy wrapping).
pub proof fn law_wrap_line_is_greedy(line: Seq<char>, width: nat)
    ensures
        forall|a: int|
            0 <= a < wrap_line(line, width).len() && (#[trigger] wrap_line(line, width)[a]).contains(' ')
                ==> utf8_len(wrap_line(line, width)[a]) <= width,
        forall|a: int|
            0 <= a < wrap_line(line, width).len() - 1 ==> utf8_len(#[trigger] wrap_line(line, width)[a]) + 1
                + utf8_len(lead_word(wrap_line(line, width)[a + 1])) > width,
{
    if line.len() == 0 {
        assert(!Seq::<char>::empty().contains(' '));
        return;
    }
    let words = crate::code::stub::ws_words(line);
    lemma_ws_words_shape(line);
    assert forall|k: int, i: int| 0 <= k < words.len() && 0 <= i < words[k].len() implies #[trigger] words[k][i] != ' ' by {
        assert(!crate::text::is_ws(words[k][i]));
    }
    lemma_wrap_ok(words, width);
    let st = wrap_words(words, width);
    let r = wrap_line(line, width);
    if st.1.len() > 0 {
        assert(r == st.0.push(st.1));
        assert forall|a: int| 0 <= a < r.len() - 1 implies utf8_len(#[trigger] r[a]) + 1 + utf8_len(lead_word(r[a + 1])) > width by {
            assert(r[a] == st.0[a]);
            assert(r[a + 1] == next_line(st, a));
        }
        assert forall|a: int| 0 <= a < r.len() && (#[trigger] r[a]).contains(' ') implies utf8_len(r[a]) <= width by {
            if a < st.0.len() {
                assert(r[a] == st.0[a]);
            }
        }
    } else {
        assert(st.0.len() == 0);
        assert(r == st.0);
    }
}

/// Every line that wrapping `text` gives and that holds a space (more than
/// one word) fits in `width` bytes.
pub proof fn law_wrapped_lines_fit(text: Seq<char>, width: nat)
    ensures
        forall|a: int|
            0 <= a < wrapped(text, width).len() && (#[trigger] wrapped(text, width)[a]).contains(' ')
                ==> utf8_len(wrapped(text, width)[a]) <= width,
{
    let lines = crate::text::text_lines(text);
    lemma_wrap_lines_fit(lines, width);
    if wrap_lines(lines, width).len() == 0 {
        assert(!Seq::<char>::empty().contains(' '));
    }
}

proof fn lemma_wrap_lines_fit(lines: Seq<Seq<char>>, width: nat)
    ensures
        forall|a: int|
            0 <= a < wrap_lines(lines, width).len() && (#[trigger] wrap_lines(lines, width)[a]).contains(' ')
                ==> utf8_len(wrap_lines(lines, width)[a]) <= width,
    decreases lines.len(),
{
    if lines.len() > 0 {
        lemma_wrap_lines_fit(lines.drop_last(), width);
        law_wrap_line_is_greedy(lines.last(), width);
        let p = wrap_lines(lines.drop_last(), width);
        let q = wrap_line(lines.last(), width);
        assert forall|a: int| 0 <= a < (p + q).len() && (#[trigger] (p + q)[a]).contains(' ') implies utf8_len((p + q)[a]) <= width by {
            if a < p.len() {
                assert((p + q)[a] == p[a]);
            } else {
                assert((p + q)[a] == q[a - p.len()]);
            }
        }
    }
}

/// Greedy word wrap of `text` into lines of at most `width` bytes (a
/// longer word keeps a line of its own).
pub fn wrap_text(text: &str, width: usize) -> (r: Vec<String>)
    requires
        max_line_cost(crate::text::text_lines(text@)) < usize::MAX,
    ensures
        crate::order::strs_view(r@) == wrapped(text@, width as nat),
{
    let lines = crate::text::lines_of(text);
    let ghost lv = crate::text::text_lines(text@);
    assert(crate::order::strs_view(lines@) =~= lv);
    let mut out: Vec<String> = Vec::new();
    let mut i: usize = 0;
    assert(lv.take(0) =~= Seq::<Seq<char>>::empty());
    while i < lines.len()
        invariant
            i <= lines@.len(),
            lv == crate::order::strs_view(lines@),
            max_line_cost(lv) < usize::MAX,
            crate::order::strs_view(out@) == wrap_lines(lv.take(i as int), width as nat),
        decreases lines@.len() - i,
    {
        let line = &lines[i];
        let ghost t = lv.take(i as int + 1);
        proof {
            assert(t.drop_last() =~= lv.take(i as int));
            assert(t.last() == line@);
            lemma_line_cost_bound(lv, i as int);
        }
        let ghost before = crate::order::strs_view(out@);
        if line.as_str().unicode_len() == 0 {
            out.push(String::new());
            assert(crate::order::strs_view(out@) =~= before + seq![Seq::<char>::empty()]);
        } else {
            let words = crate::code::stub::split_ws(line.as_str());
            let ghost ws = crate::code::stub::ws_words(line@);
            let mut current = String::new();
            let mut col: usize = 0;
            let mut j: usize = 0;
            let ghost mut done: Seq<Seq<char>> = Seq::empty();
            assert(ws.take(0) =~= Seq::<Seq<char>>::empty());
            while j < words.len()
                invariant
                    j <= words@.len(),
                    words@.map_values(|w: Vec<char>| w@) == ws,
                    words_cost(ws) < usize::MAX,
                    wrap_words(ws.take(j as int), width as nat) == (done, current@, col as nat),
                    crate::order::strs_view(out@) == before + done,
                    col <= words_cost(ws.take(j as int)),
                decreases words@.len() - j,
            {
                let w = &words[j];
                let ghost tw = ws.take(j as int + 1);
                proof {
                    assert(tw.drop_last() =~= ws.take(j as int));
                    assert(tw.last() == w@);
                    lemma_words_cost_prefix(ws, j as int + 1);
                    lemma_wrap_col_bound(ws.take(j as int), width as nat);
                }
                let word = crate::text::string_of(w);
                let wlen = word.as_str().len();
                if col > 0 && col + 1 + wlen > width {
                    let finished = current;
                    let ghost before_push = crate::order::strs_view(out@);
                    proof {
                        done = done.push(finished@);
                    }
                    out.push(finished);
                    assert(crate::order::strs_view(out@) =~= before_push.push(done.last()));
                    assert(crate::order::strs_view(out@) =~= before + done);
                    current = String::new();
                    col = 0;
                }
                if col > 0 {
                    crate::text::push_char(&mut current, ' ');
                    col = col + 1;
                }
                current.append(word.as_str());
                col = col + wlen;
                proof {
                    lemma_wrap_col_bound(tw, width as nat);
                }
                j = j + 1;
            }
            assert(ws.take(words@.len() as int) =~= ws);
            if current.as_str().unicode_len() > 0 {
                let ghost before_push = crate::order::strs_view(out@);
                let ghost cur = current@;
                out.push(current);
                assert(crate::order::strs_view(out@) =~= before_push.push(cur));
                assert(crate::order::strs_view(out@) =~= before + done.push(cur));
            }
            assert(crate::order::strs_view(out@) =~= before + wrap_line(line@, width as nat));
        }
        i = i + 1;
    }
    assert(lv.take(lines@.len() as int) =~= lv);
    if out.len() == 0 {
        out.push(String::new());
        assert(crate::order::strs_view(out@) =~= seq![Seq::<char>::empty()]);
    }
    out
}

proof fn lemma_words_cost_prefix(ws: Seq<Seq<char>>, k: int)
    requires
        0 <= k <= ws.len(),
    ensures
        words_cost(ws.take(k)) <= words_cost(ws),
    decreases ws.len() - k,
{
    if k < ws.len() {
        lemma_words_cost_prefix(ws, k + 1);
        let t = ws.take(k + 1);
        assert(t.drop_last() =~= ws.take(k));
    } else {
        assert(ws.take(k) =~= ws);
    }
}

proof fn lemma_line_cost_bound(lines: Seq<Seq<char>>, i: int)
    requires
        0 <= i < lines.len(),
    ensures
        words_cost(crate::code::stub::ws_words(lines[i])) <= max_line_cost(lines),
    decreases lines.len(),
{
    if i < lines.len() - 1 {
        lemma_line_cost_bound(lines.drop_last(), i);
        assert(lines.drop_last()[i] == lines[i]);
    }
}

/// Which message line the view starts at: the bottom when `scroll` is at or
/// past it (`usize::MAX` means "follow the bottom"), else `scroll`.
pub fn scroll_offset(scroll: usize, total: usize, visible: usize) -> (r: usize)
    ensures
        r == (if scroll >= (if total >= visible { total - visible } else { 0 }) {
            if total >= visible { total - visible } else { 0 }
        } else {
            scroll as int
        }),
{
    let bottom = total.saturating_sub(visible);
    if scroll == usize::MAX || scroll >= bottom {
        bottom
    } else if scroll < bottom {
        scroll
    } else {
        bottom
    }
}

} // verus!

verus! {

/// How many of the six basic tools `cfg` enables.
pub open spec fn tools_enabled(cfg: crate::mcp::McpConfig) -> nat {
    (if cfg.read_file { 1nat } else { 0nat }) + (if cfg.write_file { 1nat } else { 0nat }) + (
    if cfg.list_dir { 1nat } else { 0nat }) + (if cfg.search_files { 1nat } else { 0nat }) + (
    if cfg.get_cwd { 1nat } else { 0nat }) + (if cfg.run_shell { 1nat } else { 0nat })
}

/// The status bar: the status message if there is one, else the history
/// sizes, the enabled tools and whether the project has an AGENTS.md.
pub fn status_text(app: &App) -> (s: String)
    ensures
        app.status_msg@.len() > 0 ==> s@ == app.status_msg@,
        app.status_msg@.len() == 0 ==> s@ == " undo:"@ + decimal(app.undo_stack@.len()) + "  redo:"@
            + decimal(app.redo_stack@.len()) + "  tools:"@ + decimal(tools_enabled(app.mcp_cfg))
            + "/6  "@ + (if app.agents_md is Some {
            "AGENTS.md ✓"@
        } else {
            "no AGENTS.md (/init)"@
        }),
{
    if app.status_msg.as_str().unicode_len() > 0 {
        return app.status_msg.clone();
    }
    let cfg = &app.mcp_cfg;
    let mut n: usize = 0;
    if cfg.read_file {
        n = n + 1;
    }
    if cfg.write_file {
        n = n + 1;
    }
    if cfg.list_dir {
        n = n + 1;
    }
    if cfg.search_files {
        n = n + 1;
    }
    if cfg.get_cwd {
        n = n + 1;
    }
    if cfg.run_shell {
        n = n + 1;
    }
    let mut s = " undo:".to_owned();
    s.append(usize_to_decimal(app.undo_stack.len()).as_str());
    s.append("  redo:");
    s.append(usize_to_decimal(app.redo_stack.len()).as_str());
    s.append("  tools:");
    s.append(usize_to_decimal(n).as_str());
    s.append("/6  ");
    s.append(
        if app.agents_md.is_some() {
            "AGENTS.md ✓"
        } else {
            "no AGENTS.md (/init)"
        },
    );
    s
}

/// The input line as shown: the cursor mark (`…` while generating, `█`
/// otherwise) at the cursor's byte offset, or after the text when the
/// offset is past its end.
pub fn input_with_cursor(input: &str, cursor: usize, generating: bool) -> (s: String)
    requires
        utf8_len(input@) <= usize::MAX,
        cursor <= utf8_len(input@) ==> cursor_on_boundary(input@, cursor),
    ensures
        exists|k: int|
            0 <= k <= input@.len() && (#[trigger] utf8_len(input@.take(k)) == cursor || (k
                == input@.len() && cursor > utf8_len(input@))) && s@ == input@.take(k) + (
            if generating {
                "…"@
            } else {
                "█"@
            }) + input@.skip(k),
{
    let mark = if generating {
        "…"
    } else {
        "█"
    };
    let n = input.unicode_len();
    proof {
        lemma_utf8_offset_increasing(input@, n as int, n as int);
        assert(input@.take(n as int) =~= input@);
    }
    if cursor <= input.len() {
        let (left, right) = split_at_boundary(input, cursor);
        let mut s = left.to_owned();
        s.append(mark);
        s.append(right);
        proof {
            let k = left@.len() as int;
            assert(input@.take(k) =~= left@);
            assert(input@.skip(k) =~= right@);
        }
        s
    } else {
        let mut s = input.to_owned();
        s.append(mark);
        proof {
            assert(input@.skip(n as int) =~= Seq::<char>::empty());
            assert(s@ =~= input@.take(n as int) + mark@ + input@.skip(n as int));
        }
        s
    }
}

} // verus!
