//! Application state of the coding agent: the input line with its cursor,
//! the conversation, and the undo/redo history of file changes.

use vstd::prelude::*;
use vstd::utf8::{encode_utf8, is_char_boundary};

use crate::mcp::McpConfig;
use crate::text::{
    char_utf8_len, chars_of, lemma_boundary_is_char_offset, lemma_char_offset_is_boundary,
    lemma_char_utf8_len,
    lemma_utf8_offset_increasing, lemma_utf8_offset_step, utf8_len,
};

verus! {

/// Plan mode: the model suggests changes but cannot apply them.
/// Build mode: the model applies changes to disk.
#[derive(Debug, Clone, Copy, PartialEq, Eq, Structural)]
pub enum Mode {
    Plan,
    Build,
}

impl Mode {
    /// `"PLAN"` or `"BUILD"`.
    pub fn label(&self) -> (s: &'static str)
        ensures
            s@ == (match *self {
                Mode::Plan => "PLAN"@,
                Mode::Build => "BUILD"@,
            }),
    {
        match self {
            Mode::Plan => "PLAN",
            Mode::Build => "BUILD",
        }
    }
}

/// Who wrote a message of the conversation.
#[derive(Debug, Clone, Copy, PartialEq, Eq, Structural)]
pub enum Role {
    User,
    Assistant,
    Tool,
    System,
}

/// One message of the conversation.
#[derive(Debug, Clone)]
pub struct Message {
    pub role: Role,
    pub content: String,
}

impl Message {
    /// A message typed by the user.
    pub fn user(s: &str) -> (m: Self)
        ensures
            m.role == Role::User,
            m.content@ == s@,
    {
        Message { role: Role::User, content: s.to_owned() }
    }

    /// A message written by the model.
    pub fn assistant(s: &str) -> (m: Self)
        ensures
            m.role == Role::Assistant,
            m.content@ == s@,
    {
        Message { role: Role::Assistant, content: s.to_owned() }
    }

    /// A tool's output.
    pub fn tool(s: &str) -> (m: Self)
        ensures
            m.role == Role::Tool,
            m.content@ == s@,
    {
        Message { role: Role::Tool, content: s.to_owned() }
    }

    /// A notice of the application itself.
    pub fn system_msg(s: &str) -> (m: Self)
        ensures
            m.role == Role::System,
            m.content@ == s@,
    {
        Message { role: Role::System, content: s.to_owned() }
    }
}

/// A recorded change to a single file.
#[derive(Debug, Clone)]
pub struct FileChange {
    pub path: String,
    /// Content before the change (`None` if the file was created).
    pub before: Option<String>,
    /// Content after the change (`None` if the file was deleted).
    pub after: Option<String>,
}

/// What undoing or redoing a change does to one file: write it with the
/// given content, or delete it.
#[derive(Debug, Clone)]
pub enum FileAction {
    Write { path: String, content: String },
    Delete { path: String },
}

/// A file action as plain values: the path, and the content to write
/// (`None`: delete the file).
pub open spec fn action_view(a: FileAction) -> (Seq<char>, Option<Seq<char>>) {
    match a {
        FileAction::Write { path, content } => (path@, Some(content@)),
        FileAction::Delete { path } => (path@, None),
    }
}

/// An optional string as an optional character sequence.
pub open spec fn opt_view(o: Option<String>) -> Option<Seq<char>> {
    match o {
        Some(s) => Some(s@),
        None => None,
    }
}

/// The content a change leaves behind when undone (`undo`) or redone.
pub open spec fn target_content(c: FileChange, undo: bool) -> Option<Seq<char>> {
    if undo {
        opt_view(c.before)
    } else {
        opt_view(c.after)
    }
}

/// The file actions that undo (`undo`) or redo a batch, in batch order.
pub open spec fn batch_actions(batch: Seq<FileChange>, undo: bool) -> Seq<
    (Seq<char>, Option<Seq<char>>),
> {
    batch.map_values(|c: FileChange| (c.path@, target_content(c, undo)))
}

/// How one undone or redone change is reported.
pub open spec fn change_note(c: FileChange, undo: bool) -> Seq<char> {
    match target_content(c, undo) {
        Some(_) => (if undo {
            "restored "@
        } else {
            "wrote "@
        }) + c.path@,
        None => "deleted "@ + c.path@,
    }
}

/// The report of an undone or redone batch: its notes joined by `", "`.
pub open spec fn batch_summary(batch: Seq<FileChange>, undo: bool) -> Seq<char>
    decreases batch.len(),
{
    if batch.len() == 0 {
        Seq::empty()
    } else if batch.len() == 1 {
        change_note(batch[0], undo)
    } else {
        batch_summary(batch.drop_last(), undo) + ", "@ + change_note(batch.last(), undo)
    }
}

/// The two history stacks after undoing the newest batch.
pub open spec fn undone(
    undo: Seq<Vec<FileChange>>,
    redo: Seq<Vec<FileChange>>,
) -> (Seq<Vec<FileChange>>, Seq<Vec<FileChange>>) {
    (undo.drop_last(), redo.push(undo.last()))
}

/// The two history stacks after redoing the newest undone batch.
pub open spec fn redone(
    undo: Seq<Vec<FileChange>>,
    redo: Seq<Vec<FileChange>>,
) -> (Seq<Vec<FileChange>>, Seq<Vec<FileChange>>) {
    (undo.push(redo.last()), redo.drop_last())
}

/// `b` is `a` with at most its history stacks changed.
pub open spec fn same_but_history(a: App, b: App) -> bool {
    &&& b.mode == a.mode
    &&& b.input == a.input
    &&& b.cursor_pos == a.cursor_pos
    &&& b.scroll == a.scroll
    &&& b.should_quit == a.should_quit
    &&& b.messages == a.messages
    &&& b.model_name == a.model_name
    &&& b.system_prompt == a.system_prompt
    &&& b.mcp_cfg == a.mcp_cfg
    &&& b.model_loaded == a.model_loaded
    &&& b.stream_buf == a.stream_buf
    &&& b.generating == a.generating
    &&& b.project_root == a.project_root
    &&& b.agents_md == a.agents_md
    &&& b.status_msg == a.status_msg
}

/// `a` and `b` agree on everything but the input line and its cursor.
pub open spec fn same_but_input(a: App, b: App) -> bool {
    &&& b.mode == a.mode
    &&& b.scroll == a.scroll
    &&& b.should_quit == a.should_quit
    &&& b.messages == a.messages
    &&& b.model_name == a.model_name
    &&& b.system_prompt == a.system_prompt
    &&& b.mcp_cfg == a.mcp_cfg
    &&& b.model_loaded == a.model_loaded
    &&& b.stream_buf == a.stream_buf
    &&& b.generating == a.generating
    &&& b.project_root == a.project_root
    &&& b.agents_md == a.agents_md
    &&& b.undo_stack == a.undo_stack
    &&& b.redo_stack == a.redo_stack
    &&& b.status_msg == a.status_msg
}

/// `a` and `b` agree on everything but the scroll offset.
pub open spec fn same_but_scroll(a: App, b: App) -> bool {
    &&& b.mode == a.mode
    &&& b.input == a.input
    &&& b.cursor_pos == a.cursor_pos
    &&& b.should_quit == a.should_quit
    &&& b.messages == a.messages
    &&& b.model_name == a.model_name
    &&& b.system_prompt == a.system_prompt
    &&& b.mcp_cfg == a.mcp_cfg
    &&& b.model_loaded == a.model_loaded
    &&& b.stream_buf == a.stream_buf
    &&& b.generating == a.generating
    &&& b.project_root == a.project_root
    &&& b.agents_md == a.agents_md
    &&& b.undo_stack == a.undo_stack
    &&& b.redo_stack == a.redo_stack
    &&& b.status_msg == a.status_msg
}

/// The state of the coding agent's session.
pub struct App {
    pub mode: Mode,
    pub input: String,
    /// Cursor position within `input`, as a byte offset.
    pub cursor_pos: usize,
    pub scroll: usize,
    pub should_quit: bool,
    pub messages: Vec<Message>,
    pub model_name: String,
    pub system_prompt: String,
    pub mcp_cfg: McpConfig,
    pub model_loaded: bool,
    /// Streaming: tokens arrive here from the background generation.
    pub stream_buf: String,
    pub generating: bool,
    pub project_root: String,
    /// Contents of AGENTS.md if it exists.
    pub agents_md: Option<String>,
    /// Each entry is a batch of changes that can be undone at once.
    pub undo_stack: Vec<Vec<FileChange>>,
    pub redo_stack: Vec<Vec<FileChange>>,
    pub status_msg: String,
}

/// The first line of the welcome notice.
pub open spec fn welcome_text(
    model_name: Seq<char>,
    model_loaded: bool,
    project_root: Seq<char>,
    has_agents_md: bool,
) -> Seq<char> {
    "Quark Code  ·  model: "@ + model_name + " ("@ + (if model_loaded {
        "✓ loaded"@
    } else {
        "⚠ not loaded — run inference after training"@
    }) + ")  ·  project: "@ + project_root + "  ·  "@ + (if has_agents_md {
        "✓ AGENTS.md found"@
    } else {
        "run /init to analyse project"@
    })
}

/// The second line of the welcome notice.
pub open spec fn keys_text() -> Seq<char> {
    "Tab → toggle Plan/Build mode   /help for commands   Ctrl+C to quit"@
}

/// Whether the cursor sits on a character boundary of the input line.
pub open spec fn cursor_on_boundary(input: Seq<char>, cursor: usize) -> bool {
    is_char_boundary(encode_utf8(input), cursor as int)
}

/// Inserts `c` at byte offset `idx` (`String::insert`). The offset must be a
/// character boundary, else the call panics.
#[verifier::external_body]
fn string_insert(s: &mut String, idx: usize, c: char)
    requires
        is_char_boundary(encode_utf8(old(s)@), idx as int),
        utf8_len(old(s)@) + 4 <= isize::MAX,
    ensures
        forall|k: int|
            0 <= k <= old(s)@.len() && #[trigger] utf8_len(old(s)@.take(k)) == idx ==> final(s)@
                == old(s)@.insert(k, c),
{
    s.insert(idx, c);
}

/// Removes the character that starts at byte offset `idx`
/// (`String::remove`), which must be a character boundary inside the string,
/// else the call panics.
#[verifier::external_body]
fn string_remove(s: &mut String, idx: usize) -> (c: char)
    requires
        is_char_boundary(encode_utf8(old(s)@), idx as int),
        idx < utf8_len(old(s)@),
    ensures
        forall|k: int|
            0 <= k < old(s)@.len() && #[trigger] utf8_len(old(s)@.take(k)) == idx ==> final(s)@
                == old(s)@.remove(k) && c == old(s)@[k],
{
    s.remove(idx)
}

/// A copy of an optional string.
fn clone_opt(o: &Option<String>) -> (r: Option<String>)
    ensures
        opt_view(r) == opt_view(*o),
{
    match o {
        Some(s) => Some(s.clone()),
        None => None,
    }
}

/// The file actions and report for undoing (`undo`) or redoing `batch`.
fn replay(batch: &Vec<FileChange>, undo: bool) -> (r: (Vec<FileAction>, String))
    ensures
        r.0@.map_values(|a: FileAction| action_view(a)) == batch_actions(batch@, undo),
        r.1@ == batch_summary(batch@, undo),
{
    let mut actions: Vec<FileAction> = Vec::new();
    let mut summary = String::new();
    let mut i: usize = 0;
    let len = batch.len();
    while i < len
        invariant
            len == batch@.len(),
            i <= len,
            actions@.map_values(|a: FileAction| action_view(a)) == batch_actions(
                batch@.take(i as int),
                undo,
            ),
            summary@ == batch_summary(batch@.take(i as int), undo),
        decreases batch@.len() - i,
    {
        let change = &batch[i];
        let content = if undo {
            clone_opt(&change.before)
        } else {
            clone_opt(&change.after)
        };
        if i > 0 {
            summary.append(", ");
        }
        match content {
            Some(text) => {
                if undo {
                    summary.append("restored ");
                } else {
                    summary.append("wrote ");
                }
                summary.append(change.path.as_str());
                actions.push(FileAction::Write { path: change.path.clone(), content: text });
            },
            None => {
                summary.append("deleted ");
                summary.append(change.path.as_str());
                actions.push(FileAction::Delete { path: change.path.clone() });
            },
        }
        proof {
            let t = batch@.take(i as int + 1);
            assert(t.drop_last() =~= batch@.take(i as int));
            assert(t.last() == batch@[i as int]);
            assert(batch_actions(t, undo) =~= batch_actions(batch@.take(i as int), undo).push(
                (batch@[i as int].path@, target_content(batch@[i as int], undo)),
            ));
            assert(actions@.map_values(|a: FileAction| action_view(a)) =~= batch_actions(
                t,
                undo,
            ));
        }
        i = i + 1;
    }
    assert(batch@.take(batch@.len() as int) =~= batch@);
    (actions, summary)
}

impl App {
    /// A new session in Build mode, opened by the two welcome notices.
    /// `agents_md` is the content of the project's AGENTS.md, if it has one.
    pub fn new(
        model_name: String,
        system_prompt: String,
        mcp_cfg: McpConfig,
        model_loaded: bool,
        project_root: String,
        agents_md: Option<String>,
    ) -> (app: Self)
        ensures
            app.mode == Mode::Build,
            app.input@ == Seq::<char>::empty(),
            app.cursor_pos == 0,
            app.scroll == 0,
            !app.should_quit,
            !app.generating,
            app.model_name@ == model_name@,
            app.system_prompt@ == system_prompt@,
            app.mcp_cfg == mcp_cfg,
            app.model_loaded == model_loaded,
            app.stream_buf@ == Seq::<char>::empty(),
            app.project_root@ == project_root@,
            app.agents_md == agents_md,
            app.undo_stack@.len() == 0,
            app.redo_stack@.len() == 0,
            app.status_msg@ == Seq::<char>::empty(),
            app.messages@.len() == 2,
            app.messages@[0].role == Role::System,
            app.messages@[0].content@ == welcome_text(
                model_name@,
                model_loaded,
                project_root@,
                agents_md is Some,
            ),
            app.messages@[1].role == Role::System,
            app.messages@[1].content@ == keys_text(),
    {
        let mut app = App {
            mode: Mode::Build,
            input: String::new(),
            cursor_pos: 0,
            scroll: 0,
            should_quit: false,
            messages: Vec::new(),
            model_name,
            system_prompt,
            mcp_cfg,
            model_loaded,
            stream_buf: String::new(),
            generating: false,
            project_root,
            agents_md,
            undo_stack: Vec::new(),
            redo_stack: Vec::new(),
            status_msg: String::new(),
        };
        app.push_system();
        app
    }

    /// Appends the welcome notices.
    fn push_system(&mut self)
        ensures
            final(self).messages@.len() == old(self).messages@.len() + 2,
            final(self).messages@.take(old(self).messages@.len() as int) == old(self).messages@,
            final(self).messages@[old(self).messages@.len() as int].role == Role::System,
            final(self).messages@[old(self).messages@.len() as int].content@ == welcome_text(
                old(self).model_name@,
                old(self).model_loaded,
                old(self).project_root@,
                old(self).agents_md is Some,
            ),
            final(self).messages@[old(self).messages@.len() as int + 1].role == Role::System,
            final(self).messages@[old(self).messages@.len() as int + 1].content@ == keys_text(),
            final(self).mode == old(self).mode,
            final(self).input == old(self).input,
            final(self).cursor_pos == old(self).cursor_pos,
            final(self).scroll == old(self).scroll,
            final(self).should_quit == old(self).should_quit,
            final(self).model_name == old(self).model_name,
            final(self).system_prompt == old(self).system_prompt,
            final(self).mcp_cfg == old(self).mcp_cfg,
            final(self).model_loaded == old(self).model_loaded,
            final(self).stream_buf == old(self).stream_buf,
            final(self).generating == old(self).generating,
            final(self).project_root == old(self).project_root,
            final(self).agents_md == old(self).agents_md,
            final(self).undo_stack == old(self).undo_stack,
            final(self).redo_stack == old(self).redo_stack,
            final(self).status_msg == old(self).status_msg,
    {
        let mut text = String::new();
        text.append("Quark Code  ·  model: ");
        text.append(self.model_name.as_str());
        text.append(" (");
        if self.model_loaded {
            text.append("✓ loaded");
        } else {
            text.append("⚠ not loaded — run inference after training");
        }
        text.append(")  ·  project: ");
        text.append(self.project_root.as_str());
        text.append("  ·  ");
        if self.agents_md.is_some() {
            text.append("✓ AGENTS.md found");
        } else {
            text.append("run /init to analyse project");
        }
        self.messages.push(Message { role: Role::System, content: text });
        self.messages.push(
            Message::system_msg("Tab → toggle Plan/Build mode   /help for commands   Ctrl+C to quit"),
        );
    }

    /// Inserts `c` at the cursor and moves the cursor past it.
    pub fn insert_char(&mut self, c: char)
        requires
            cursor_on_boundary(old(self).input@, old(self).cursor_pos),
            utf8_len(old(self).input@) + 4 <= isize::MAX,
        ensures
            exists|k: int|
                0 <= k <= old(self).input@.len() && #[trigger] utf8_len(old(self).input@.take(k))
                    == old(self).cursor_pos && final(self).input@ == old(self).input@.insert(k, c),
            final(self).cursor_pos == old(self).cursor_pos + utf8_len(seq![c]),
            cursor_on_boundary(final(self).input@, final(self).cursor_pos),
            same_but_input(*old(self), *final(self)),
    {
        proof {
            lemma_boundary_is_char_offset(self.input@, self.cursor_pos as int);
        }
        let ghost s = self.input@;
        let ghost k = choose|k: int| 0 <= k <= s.len() && #[trigger] utf8_len(s.take(k)) == self.cursor_pos;
        string_insert(&mut self.input, self.cursor_pos, c);
        let n = char_utf8_len(c);
        proof {
            let t = self.input@;
            assert(t == s.insert(k, c));
            assert(t.take(k + 1) =~= s.take(k).push(c));
            lemma_utf8_offset_step(t, k);
            assert(t.take(k) =~= s.take(k));
            lemma_utf8_offset_increasing(t, k + 1, t.len() as int);
            assert(t.take(t.len() as int) =~= t);
            lemma_char_offset_is_boundary(t, k + 1);
            lemma_utf8_offset_increasing(s, k, s.len() as int);
        }
        self.cursor_pos = self.cursor_pos + n;
    }

    /// Deletes the character before the cursor, if there is one, and moves
    /// the cursor to where that character started.
    pub fn backspace(&mut self)
        requires
            cursor_on_boundary(old(self).input@, old(self).cursor_pos),
        ensures
            old(self).cursor_pos == 0 ==> *final(self) == *old(self),
            old(self).cursor_pos > 0 ==> exists|k: int|
                0 < k <= old(self).input@.len() && #[trigger] utf8_len(old(self).input@.take(k))
                    == old(self).cursor_pos && final(self).input@ == old(self).input@.remove(k - 1)
                    && final(self).cursor_pos == utf8_len(old(self).input@.take(k - 1)),
            cursor_on_boundary(final(self).input@, final(self).cursor_pos),
            same_but_input(*old(self), *final(self)),
    {
        if self.cursor_pos == 0 {
            return;
        }
        let ghost s = self.input@;
        let cursor = self.cursor_pos;
        proof {
            lemma_boundary_is_char_offset(s, cursor as int);
        }
        let ghost kc = choose|k: int| 0 <= k <= s.len() && #[trigger] utf8_len(s.take(k)) == cursor;
        let chars = chars_of(self.input.as_str());
        let nchars = chars.len();
        // Walk the characters up to the cursor, remembering where the last
        // one started.
        let mut off: usize = 0;
        let mut prev: usize = 0;
        let mut i: usize = 0;
        proof {
            assert(s.take(0) =~= Seq::<char>::empty());
            assert(encode_utf8(s.take(0)) =~= Seq::<u8>::empty());
        }
        while off < cursor
            invariant
                chars@ == s,
                nchars == s.len(),
                0 <= kc <= s.len(),
                utf8_len(s.take(kc)) == cursor,
                0 < cursor,
                i <= kc,
                off == utf8_len(s.take(i as int)),
                off <= cursor,
                i > 0 ==> prev == utf8_len(s.take(i - 1)),
            decreases kc - i,
        {
            proof {
                if i >= kc {
                    lemma_utf8_offset_increasing(s, kc, i as int);
                }
                lemma_utf8_offset_step(s, i as int);
                lemma_utf8_offset_increasing(s, i as int + 1, kc);
            }
            prev = off;
            off = off + char_utf8_len(chars[i]);
            i = i + 1;
        }
        proof {
            if i < kc {
                lemma_utf8_offset_increasing(s, i as int, kc);
            }
            assert(i == kc);
            assert(i > 0);
            lemma_char_offset_is_boundary(s, i - 1);
            lemma_utf8_offset_increasing(s, i - 1, s.len() as int);
            lemma_utf8_offset_step(s, i - 1);
            lemma_char_utf8_len(s[i - 1]);
            assert(s.take(s.len() as int) =~= s);
        }
        string_remove(&mut self.input, prev);
        proof {
            let t = self.input@;
            assert(t == s.remove(i - 1));
            assert(t.take(i - 1) =~= s.take(i - 1));
            lemma_char_offset_is_boundary(t, i - 1);
        }
        self.cursor_pos = prev;
    }

    /// Hands out the input line and leaves it empty.
    pub fn take_input(&mut self) -> (s: String)
        ensures
            s@ == old(self).input@,
            final(self).input@ == Seq::<char>::empty(),
            final(self).cursor_pos == 0,
            same_but_input(*old(self), *final(self)),
    {
        let mut s = String::new();
        core::mem::swap(&mut s, &mut self.input);
        self.cursor_pos = 0;
        s
    }

    /// Records a batch of file changes (after each Build-mode tool run): a
    /// non-empty batch goes on the undo stack and clears the redo stack; an
    /// empty one changes nothing.
    pub fn record_changes(&mut self, changes: Vec<FileChange>)
        ensures
            changes@.len() == 0 ==> final(self).undo_stack@ == old(self).undo_stack@
                && final(self).redo_stack@ == old(self).redo_stack@,
            changes@.len() > 0 ==> final(self).undo_stack@ == old(self).undo_stack@.push(changes)
                && final(self).redo_stack@.len() == 0,
            changes@.len() == 0 ==> *final(self) == *old(self),
            same_but_history(*old(self), *final(self)),
    {
        if changes.len() > 0 {
            self.undo_stack.push(changes);
            self.redo_stack.clear();
        }
    }

    /// Undoes the newest batch of file changes: moves it to the redo stack
    /// and returns the file actions that restore the earlier contents, in
    /// batch order, with their report. `None` when there is nothing to undo.
    pub fn undo(&mut self) -> (r: Option<(Vec<FileAction>, String)>)
        ensures
            old(self).undo_stack@.len() == 0 ==> r is None && final(self).undo_stack@
                == old(self).undo_stack@ && final(self).redo_stack@ == old(self).redo_stack@,
            old(self).undo_stack@.len() > 0 ==> r is Some && (final(self).undo_stack@,
            final(self).redo_stack@) == undone(old(self).undo_stack@, old(self).redo_stack@)
                && r.unwrap().0@.map_values(|a: FileAction| action_view(a)) == batch_actions(
                old(self).undo_stack@.last()@,
                true,
            ) && r.unwrap().1@ == batch_summary(old(self).undo_stack@.last()@, true),
            same_but_history(*old(self), *final(self)),
    {
        match self.undo_stack.pop() {
            None => None,
            Some(batch) => {
                let (actions, summary) = replay(&batch, true);
                self.redo_stack.push(batch);
                Some((actions, summary))
            },
        }
    }

    /// Redoes the newest undone batch: moves it back to the undo stack and
    /// returns the file actions that write the later contents again, with
    /// their report. `None` when there is nothing to redo.
    pub fn redo(&mut self) -> (r: Option<(Vec<FileAction>, String)>)
        ensures
            old(self).redo_stack@.len() == 0 ==> r is None && final(self).undo_stack@
                == old(self).undo_stack@ && final(self).redo_stack@ == old(self).redo_stack@,
            old(self).redo_stack@.len() > 0 ==> r is Some && (final(self).undo_stack@,
            final(self).redo_stack@) == redone(old(self).undo_stack@, old(self).redo_stack@)
                && r.unwrap().0@.map_values(|a: FileAction| action_view(a)) == batch_actions(
                old(self).redo_stack@.last()@,
                false,
            ) && r.unwrap().1@ == batch_summary(old(self).redo_stack@.last()@, false),
            same_but_history(*old(self), *final(self)),
    {
        match self.redo_stack.pop() {
            None => None,
            Some(batch) => {
                let (actions, summary) = replay(&batch, false);
                self.undo_stack.push(batch);
                Some((actions, summary))
            },
        }
    }

    /// Scrolls three lines up, stopping at the top.
    pub fn scroll_up(&mut self)
        ensures
            final(self).scroll == (if old(self).scroll >= 3 { old(self).scroll - 3 } else { 0 }),
            same_but_scroll(*old(self), *final(self)),
    {
        self.scroll = self.scroll.saturating_sub(3);
    }

    /// Scrolls three lines down.
    pub fn scroll_down(&mut self)
        requires
            old(self).scroll + 3 <= usize::MAX,
        ensures
            final(self).scroll == old(self).scroll + 3,
            same_but_scroll(*old(self), *final(self)),
    {
        self.scroll = self.scroll + 3;
    }

    /// Scrolls to the end of the conversation (the renderer clamps the
    /// offset).
    pub fn scroll_to_bottom(&mut self)
        ensures
            final(self).scroll == usize::MAX,
            same_but_scroll(*old(self), *final(self)),
    {
        self.scroll = usize::MAX;
    }
}

} // verus!

verus! {


/// Typing a character and then deleting it with backspace gives back the
/// input line and the cursor: the character typed at character index `k`
/// ends at the byte offset the cursor moves to, and the only character
/// ending there is that one.
pub proof fn law_insert_then_backspace(s: Seq<char>, k: int, c: char, k2: int)
    requires
        0 <= k <= s.len(),
        0 < k2 <= s.len() + 1,
        utf8_len(s.insert(k, c).take(k2)) == utf8_len(s.take(k)) + utf8_len(seq![c]),
    ensures
        s.insert(k, c).remove(k2 - 1) == s,
        utf8_len(s.insert(k, c).take(k2 - 1)) == utf8_len(s.take(k)),
{
    let t = s.insert(k, c);
    assert(t.take(k) =~= s.take(k));
    assert(t[k] == c);
    lemma_utf8_offset_step(t, k);
    lemma_char_utf8_len(c);
    if k2 < k + 1 {
        lemma_utf8_offset_increasing(t, k2, k);
    } else if k2 > k + 1 {
        lemma_utf8_offset_increasing(t, k + 1, k2);
    }
    assert(k2 == k + 1);
    assert(t.remove(k) =~= s);
}

/// Undoing a batch and then redoing it leaves both history stacks as they
/// were.
pub proof fn law_undo_then_redo(undo: Seq<Vec<FileChange>>, redo: Seq<Vec<FileChange>>)
    requires
        undo.len() > 0,
    ensures
        redone(undone(undo, redo).0, undone(undo, redo).1) == (undo, redo),
{
    assert(undo.drop_last().push(undo.last()) =~= undo);
    assert(redo.push(undo.last()).drop_last() =~= redo);
}

/// Redoing a batch and then undoing it leaves both history stacks as they
/// were.
pub proof fn law_redo_then_undo(undo: Seq<Vec<FileChange>>, redo: Seq<Vec<FileChange>>)
    requires
        redo.len() > 0,
    ensures
        undone(redone(undo, redo).0, redone(undo, redo).1) == (undo, redo),
{
    assert(undo.push(redo.last()).drop_last() =~= undo);
    assert(redo.drop_last().push(redo.last()) =~= redo);
}

/// Undoing right after recording a batch takes back exactly that batch: the
/// undo stack is as before the recording and the batch alone is redoable.
pub proof fn law_record_then_undo(undo: Seq<Vec<FileChange>>, batch: Vec<FileChange>)
    requires
        batch@.len() > 0,
    ensures
        undone(undo.push(batch), Seq::empty()) == (undo, seq![batch]),
{
    assert(undo.push(batch).drop_last() =~= undo);
    assert(Seq::<Vec<FileChange>>::empty().push(batch) =~= seq![batch]);
}

} // verus!
