//! Tool (Model Context Protocol) definitions: results, configuration, and the
//! text format in which calls and results travel through a conversation.

use vstd::prelude::*;

use crate::text::{chars_of, contains_seq, occurs_at, occurs_at_exec, push_char, str_eq, trim, trim_ws};

verus! {

/// Result returned after executing a tool call.
#[derive(Debug, Clone)]
pub struct ToolResult {
    pub tool: String,
    pub ok: bool,
    pub content: String,
}

/// `"ok"` or `"error"`.
pub fn status_word(ok: bool) -> (s: &'static str)
    ensures
        s@ == (if ok { "ok"@ } else { "error"@ }),
{
    if ok { "ok" } else { "error" }
}

/// Which tools are enabled, and the directory they work in.
#[derive(Debug, Clone)]
pub struct McpConfig {
    pub read_file: bool,
    pub write_file: bool,
    pub list_dir: bool,
    pub search_files: bool,
    pub get_cwd: bool,
    pub run_shell: bool,
    pub working_dir: String,
}

impl McpConfig {
    /// The default tool set rooted at `working_dir`: every tool on except
    /// `run_shell`, which is potentially dangerous.
    pub fn default_for(working_dir: String) -> (cfg: Self)
        ensures
            cfg.read_file && cfg.write_file && cfg.list_dir && cfg.search_files && cfg.get_cwd,
            !cfg.run_shell,
            cfg.working_dir@ == working_dir@,
    {
        McpConfig {
            read_file: true,
            write_file: true,
            list_dir: true,
            search_files: true,
            get_cwd: true,
            run_shell: false,
            working_dir,
        }
    }
}

/// `<tool_result tool="{tool}" status="{ok|error}">\n{content}\n</tool_result>`.
pub open spec fn tool_result_block(tool: Seq<char>, ok: bool, content: Seq<char>) -> Seq<char> {
    "<tool_result tool=\""@ + tool + "\" status=\""@ + (if ok { "ok"@ } else { "error"@ })
        + "\">\n"@ + content + "\n</tool_result>"@
}

/// Formats a tool result for injection back into the conversation as context.
pub fn format_tool_result(result: &ToolResult) -> (s: String)
    ensures
        s@ == tool_result_block(result.tool@, result.ok, result.content@),
{
    let mut s = String::new();
    s.append("<tool_result tool=\"");
    s.append(result.tool.as_str());
    s.append("\" status=\"");
    s.append(status_word(result.ok));
    s.append("\">\n");
    s.append(result.content.as_str());
    s.append("\n</tool_result>");
    s
}

/// The text of the result of a tool that the configuration switched off.
pub open spec fn disabled_text(tool: Seq<char>) -> Seq<char> {
    "Tool '"@ + tool + "' is disabled in this app's MCP config."@
}

/// The failed result of calling a disabled tool.
pub fn disabled(tool: &str) -> (r: ToolResult)
    ensures
        r.tool@ == tool@,
        !r.ok,
        r.content@ == disabled_text(tool@),
{
    let mut content = String::new();
    content.append("Tool '");
    content.append(tool);
    content.append("' is disabled in this app's MCP config.");
    ToolResult { tool: tool.to_owned(), ok: false, content }
}

/// Path `path` taken relative to `base` (Unix paths): empty means `base`
/// itself, an absolute path stands alone, anything else is joined to `base`
/// with one `/` between them.
pub open spec fn resolved_path(base: Seq<char>, path: Seq<char>) -> Seq<char> {
    if path.len() == 0 {
        base
    } else if path[0] == '/' || base.len() == 0 {
        path
    } else if base.last() == '/' {
        base + path
    } else {
        base + "/"@ + path
    }
}

/// Resolves a tool's `path` argument against the working directory.
pub fn resolve(base: &str, path: &str) -> (r: String)
    ensures
        r@ == resolved_path(base@, path@),
{
    let np = path.unicode_len();
    if np == 0 {
        return base.to_owned();
    }
    let nb = base.unicode_len();
    if path.get_char(0) == '/' || nb == 0 {
        return path.to_owned();
    }
    let mut r = base.to_owned();
    if base.get_char(nb - 1) != '/' {
        r.append("/");
    }
    r.append(path);
    r
}

} // verus!

verus! {

/// The first index at or after `i` where `p` occurs in `s`.
pub open spec fn find_from(s: Seq<char>, p: Seq<char>, i: int) -> Option<int>
    decreases s.len() - i,
{
    if i < 0 || i + p.len() > s.len() {
        None
    } else if occurs_at(s, p, i) {
        Some(i)
    } else if i >= s.len() {
        None
    } else {
        find_from(s, p, i + 1)
    }
}

proof fn lemma_find_from_bounds(s: Seq<char>, p: Seq<char>, i: int)
    ensures
        find_from(s, p, i) matches Some(j) ==> i <= j && j + p.len() <= s.len() && occurs_at(
            s,
            p,
            j,
        ),
    decreases s.len() - i,
{
    if !(i < 0 || i + p.len() > s.len()) && !occurs_at(s, p, i) && i < s.len() {
        lemma_find_from_bounds(s, p, i + 1);
    }
}

/// The first occurrence of `p` in `s` at or after `from`.
pub fn find_exec(s: &Vec<char>, p: &Vec<char>, from: usize) -> (r: Option<usize>)
    ensures
        match r {
            Some(j) => find_from(s@, p@, from as int) == Some(j as int),
            None => find_from(s@, p@, from as int) is None,
        },
{
    if p.len() == 0 {
        if from <= s.len() {
            assert(s@.subrange(from as int, from as int) =~= p@);
            return Some(from);
        }
        return None;
    }
    let mut i = from;
    while i <= s.len() && p.len() <= s.len() - i
        invariant
            from <= i,
            p@.len() > 0,
            find_from(s@, p@, i as int) == find_from(s@, p@, from as int),
        decreases s@.len() - i,
    {
        if occurs_at_exec(s, p, i) {
            return Some(i);
        }
        i = i + 1;
    }
    None
}

/// The opening tag of a tool call in model output.
pub open spec fn open_tag() -> Seq<char> {
    "<tool_call>"@
}

/// The closing tag of a tool call.
pub open spec fn close_tag() -> Seq<char> {
    "</tool_call>"@
}

/// The bodies of the complete `<tool_call>…</tool_call>` blocks of `text`,
/// from left to right and trimmed; scanning stops at an opening tag without
/// a closing one.
pub open spec fn call_bodies(text: Seq<char>) -> Seq<Seq<char>>
    decreases text.len(),
{
    match find_from(text, open_tag(), 0) {
        None => Seq::empty(),
        Some(i) => {
            let after = text.skip(i + open_tag().len());
            match find_from(after, close_tag(), 0) {
                None => Seq::empty(),
                Some(j) => if 0 <= i && i + open_tag().len() <= text.len() && 0 <= j && j
                    + close_tag().len() <= after.len() {
                    proof {
                        reveal_strlit("<tool_call>");
                    }
                    seq![trim(after.take(j))] + call_bodies(after.skip(j + close_tag().len()))
                } else {
                    Seq::empty()
                },
            }
        },
    }
}

/// `p` first occurs in `s` from index `i` on at `j`.
proof fn lemma_find_first(s: Seq<char>, p: Seq<char>, i: int, j: int)
    requires
        0 <= i <= j,
        j + p.len() <= s.len(),
        occurs_at(s, p, j),
        forall|k: int| i <= k < j ==> !occurs_at(s, p, k),
    ensures
        find_from(s, p, i) == Some(j),
    decreases j - i,
{
    if i < j {
        lemma_find_first(s, p, i + 1, j);
    }
}

/// Tool calls written in the chat template's format, one after another:
/// each body between an opening and a closing tag.
pub open spec fn written_calls(bodies: Seq<Seq<char>>) -> Seq<char>
    decreases bodies.len(),
{
    if bodies.len() == 0 {
        Seq::empty()
    } else {
        open_tag() + bodies[0] + close_tag() + written_calls(bodies.drop_first())
    }
}

/// Tool calls written in the template's format are read back: their
/// bodies come out in order, trimmed, provided no body contains a `<` (which
/// could start a tag).
pub proof fn law_written_calls_read_back(bodies: Seq<Seq<char>>)
    requires
        forall|i: int, k: int| 0 <= i < bodies.len() && 0 <= k < bodies[i].len() ==> bodies[i][k] != '<',
    ensures
        call_bodies(written_calls(bodies)) == bodies.map_values(|b: Seq<char>| trim(b)),
    decreases bodies.len(),
{
    reveal_strlit("<tool_call>");
    reveal_strlit("</tool_call>");
    if bodies.len() == 0 {
        assert(find_from(Seq::<char>::empty(), open_tag(), 0) is None);
        assert(call_bodies(written_calls(bodies)) =~= Seq::<Seq<char>>::empty());
        assert(bodies.map_values(|b: Seq<char>| trim(b)) =~= Seq::<Seq<char>>::empty());
    } else {
        let b0 = bodies[0];
        let rest_bodies = bodies.drop_first();
        assert forall|i: int, k: int| 0 <= i < rest_bodies.len() && 0 <= k < rest_bodies[i].len() implies rest_bodies[i][k]
            != '<' by {
            assert(rest_bodies[i] == bodies[i + 1]);
        }
        law_written_calls_read_back(rest_bodies);
        let rest = written_calls(rest_bodies);
        let text = written_calls(bodies);
        assert(text == open_tag() + b0 + close_tag() + rest);
        let o = open_tag().len() as int;
        let c = close_tag().len() as int;
        assert(text.subrange(0, o) =~= open_tag());
        lemma_find_first(text, open_tag(), 0, 0);
        let after = text.skip(o);
        assert(after =~= b0 + close_tag() + rest);
        assert(after.subrange(b0.len() as int, b0.len() + c) =~= close_tag());
        assert forall|k: int| 0 <= k < b0.len() implies !occurs_at(after, close_tag(), k) by {
            if occurs_at(after, close_tag(), k) {
                assert(after.subrange(k, k + c)[0] == after[k]);
                assert(after[k] == b0[k]);
                assert(close_tag()[0] == '<');
            }
        }
        lemma_find_first(after, close_tag(), 0, b0.len() as int);
        assert(after.take(b0.len() as int) =~= b0);
        assert(after.skip(b0.len() + c) =~= rest);
        assert(call_bodies(text) == seq![trim(b0)] + call_bodies(rest));
        assert(bodies.map_values(|b: Seq<char>| trim(b)) =~= seq![trim(b0)] + rest_bodies.map_values(
            |b: Seq<char>| trim(b),
        ));
    }
}

/// The bodies of the tool calls in model output, in order: what lies
/// between `<tool_call>` and the next `</tool_call>`, trimmed. Each body is
/// meant to be a JSON object naming the tool and its arguments.
pub fn tool_call_bodies(text: &str) -> (r: Vec<String>)
    ensures
        r@.map_values(|b: String| b@) == call_bodies(text@),
{
    proof {
        reveal_strlit("<tool_call>");
        reveal_strlit("</tool_call>");
    }
    let s = chars_of(text);
    let open = chars_of("<tool_call>");
    let close = chars_of("</tool_call>");
    let mut out: Vec<String> = Vec::new();
    let mut pos: usize = 0;
    let slen = s.len();
    assert(s@.skip(0) =~= s@);
    loop
        invariant
            slen == s@.len(),
            pos <= s@.len(),
            s@ == text@,
            open@ == open_tag(),
            close@ == close_tag(),
            out@.map_values(|b: String| b@) + call_bodies(s@.skip(pos as int)) == call_bodies(
                text@,
            ),
        ensures
            out@.map_values(|b: String| b@) == call_bodies(text@),
        decreases s@.len() - pos,
    {
        let ghost rest = s@.skip(pos as int);
        let fi = find_exec(&s, &open, pos);
        if fi.is_none() {
            proof {
                lemma_find_rest_none(s@, open@, pos as int);
                assert(call_bodies(rest) =~= Seq::<Seq<char>>::empty());
                assert(out@.map_values(|b: String| b@) + Seq::<Seq<char>>::empty()
                    =~= out@.map_values(|b: String| b@));
            }
            break;
        }
        let i = fi.unwrap();
        proof {
            lemma_find_from_bounds(s@, open@, pos as int);
            lemma_find_rest_some(s@, open@, pos as int, i as int);
        }
        let body_start = i + open.len();
        let ghost after = rest.skip(i - pos + open_tag().len());
        assert(after =~= s@.skip(body_start as int));
        let fj = find_exec(&s, &close, body_start);
        if fj.is_none() {
            proof {
                lemma_find_rest_none(s@, close@, body_start as int);
                assert(call_bodies(rest) =~= Seq::<Seq<char>>::empty());
                assert(out@.map_values(|b: String| b@) + Seq::<Seq<char>>::empty()
                    =~= out@.map_values(|b: String| b@));
            }
            break;
        }
        let j = fj.unwrap();
        proof {
            lemma_find_from_bounds(s@, close@, body_start as int);
            lemma_find_rest_some(s@, close@, body_start as int, j as int);
        }
        let body = string_of_range(&s, body_start, j);
        let t = trim_ws(body.as_str());
        let ghost before = out@.map_values(|b: String| b@);
        out.push(t);
        proof {
            let jj = j - body_start;
            assert(after.take(jj) =~= body@);
            assert(after.skip(jj + close_tag().len()) =~= s@.skip(j + close_tag().len()));
            assert(out@.map_values(|b: String| b@) =~= before.push(trim(body@)));
            assert(call_bodies(rest) =~= seq![trim(body@)] + call_bodies(
                s@.skip(j + close_tag().len()),
            ));
            assert(before + call_bodies(rest) =~= out@.map_values(|b: String| b@) + call_bodies(
                s@.skip(j + close_tag().len()),
            ));
        }
        pos = j + close.len();
    }
    out
}

proof fn lemma_find_shift(s: Seq<char>, p: Seq<char>, pos: int, k: int)
    requires
        0 <= pos <= s.len(),
        0 <= k,
    ensures
        match find_from(s, p, pos + k) {
            Some(j) => find_from(s.skip(pos), p, k) == Some(j - pos),
            None => find_from(s.skip(pos), p, k) is None,
        },
    decreases s.len() - pos - k,
{
    let t = s.skip(pos);
    if pos + k + p.len() > s.len() {
    } else {
        assert(t.subrange(k, k + p.len()) =~= s.subrange(pos + k, pos + k + p.len()));
        if !occurs_at(s, p, pos + k) && pos + k < s.len() {
            lemma_find_shift(s, p, pos, k + 1);
        }
    }
}

proof fn lemma_find_rest_none(s: Seq<char>, p: Seq<char>, pos: int)
    requires
        0 <= pos <= s.len(),
        find_from(s, p, pos) is None,
    ensures
        find_from(s.skip(pos), p, 0) is None,
{
    lemma_find_shift(s, p, pos, 0);
}

proof fn lemma_find_rest_some(s: Seq<char>, p: Seq<char>, pos: int, i: int)
    requires
        0 <= pos <= s.len(),
        find_from(s, p, pos) == Some(i),
    ensures
        find_from(s.skip(pos), p, 0) == Some(i - pos),
{
    lemma_find_shift(s, p, pos, 0);
}

/// The characters `s[from..to]` as a string.
fn string_of_range(s: &Vec<char>, from: usize, to: usize) -> (r: String)
    requires
        from <= to <= s@.len(),
    ensures
        r@ == s@.subrange(from as int, to as int),
{
    let mut r = String::new();
    let mut i = from;
    while i < to
        invariant
            from <= i <= to <= s@.len(),
            r@ == s@.subrange(from as int, i as int),
        decreases to - i,
    {
        push_char(&mut r, s[i]);
        i = i + 1;
        assert(r@ =~= s@.subrange(from as int, i as int));
    }
    r
}

} // verus!

verus! {

/// The basic tools.
#[derive(Debug, Clone, Copy, PartialEq, Eq, Structural)]
pub enum BasicTool {
    ReadFile,
    WriteFile,
    ListDir,
    SearchFiles,
    GetCwd,
    RunShell,
}

/// Which basic tool `name` is, and whether `cfg` enables it.
pub open spec fn basic_tool_of(name: Seq<char>, cfg: McpConfig) -> Option<(BasicTool, bool)> {
    if name == "read_file"@ {
        Some((BasicTool::ReadFile, cfg.read_file))
    } else if name == "write_file"@ {
        Some((BasicTool::WriteFile, cfg.write_file))
    } else if name == "list_dir"@ {
        Some((BasicTool::ListDir, cfg.list_dir))
    } else if name == "search_files"@ {
        Some((BasicTool::SearchFiles, cfg.search_files))
    } else if name == "get_cwd"@ {
        Some((BasicTool::GetCwd, cfg.get_cwd))
    } else if name == "run_shell"@ {
        Some((BasicTool::RunShell, cfg.run_shell))
    } else {
        None
    }
}

/// What stands before a basic tool call: the tool to run, or the failed
/// result of a disabled or unknown tool.
pub fn basic_tool_gate(name: &str, cfg: &McpConfig) -> (r: Result<BasicTool, ToolResult>)
    ensures
        match basic_tool_of(name@, *cfg) {
            Some((t, true)) => r == Ok::<BasicTool, ToolResult>(t),
            Some((_, false)) => r matches Err(res) && res.tool@ == name@ && !res.ok
                && res.content@ == disabled_text(name@),
            None => r matches Err(res) && res.tool@ == name@ && !res.ok && res.content@
                == "Unknown tool: "@ + name@,
        },
{
    let (tool, enabled) = if str_eq(name, "read_file") {
        (BasicTool::ReadFile, cfg.read_file)
    } else if str_eq(name, "write_file") {
        (BasicTool::WriteFile, cfg.write_file)
    } else if str_eq(name, "list_dir") {
        (BasicTool::ListDir, cfg.list_dir)
    } else if str_eq(name, "search_files") {
        (BasicTool::SearchFiles, cfg.search_files)
    } else if str_eq(name, "get_cwd") {
        (BasicTool::GetCwd, cfg.get_cwd)
    } else if str_eq(name, "run_shell") {
        (BasicTool::RunShell, cfg.run_shell)
    } else {
        let mut content = "Unknown tool: ".to_owned();
        content.append(name);
        return Err(ToolResult { tool: name.to_owned(), ok: false, content });
    };
    if enabled {
        Ok(tool)
    } else {
        Err(disabled(name))
    }
}

/// The result of a tool call from what running it gave.
pub fn finish_tool(tool: &str, outcome: Result<String, String>) -> (r: ToolResult)
    ensures
        r.tool@ == tool@,
        r.ok == outcome is Ok,
        r.content@ == (match outcome {
            Ok(c) => c@,
            Err(e) => e@,
        }),
{
    match outcome {
        Ok(content) => ToolResult { tool: tool.to_owned(), ok: true, content },
        Err(e) => ToolResult { tool: tool.to_owned(), ok: false, content: e },
    }
}

/// The note `write_file` answers with. It reports the length of the path's
/// text, in bytes, as the size written.
pub fn written_note(full: &str) -> (r: String)
    requires
        crate::text::utf8_len(full@) <= usize::MAX,
    ensures
        r@ == "Written "@ + crate::text::decimal(crate::text::utf8_len(full@)) + " bytes to "@ + full@,
{
    let mut r = "Written ".to_owned();
    let n = full.len();
    let d = crate::text::usize_to_decimal(n);
    r.append(d.as_str());
    r.append(" bytes to ");
    r.append(full);
    r
}

/// What `run_shell` answers: the first 4000 characters of standard output
/// followed by standard error.
pub fn shell_output(stdout: &str, stderr: &str) -> (r: String)
    ensures
        r@ == (stdout@ + stderr@).take(if 4000 < (stdout@ + stderr@).len() { 4000 } else { (stdout@ + stderr@).len() as int }),
{
    let mut all = stdout.to_owned();
    all.append(stderr);
    crate::text::take_chars(all.as_str(), 4000)
}

/// Whether a directory entry is hidden (its name starts with `.`).
pub open spec fn hidden(name: Seq<char>) -> bool {
    name.len() > 0 && name[0] == '.'
}

/// Whether a file named `name` is a hit of `search_files` for `pattern`:
/// an empty pattern matches every file, another one the names holding it.
pub fn search_hit(name: &str, pattern: &str) -> (r: bool)
    ensures
        r == (pattern@.len() == 0 || contains_seq(name@, pattern@)),
{
    if pattern.unicode_len() == 0 {
        return true;
    }
    let n = chars_of(name);
    let p = chars_of(pattern);
    crate::text::contains_exec(&n, &p)
}

/// Whether a directory entry is hidden.
pub fn is_hidden(name: &str) -> (r: bool)
    ensures
        r == hidden(name@),
{
    name.unicode_len() > 0 && name.get_char(0) == '.'
}

} // verus!
