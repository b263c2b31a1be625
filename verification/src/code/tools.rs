//! The agent's own tools beyond the basic ones: file-name matching, results
//! of the file tools, and the error results they share.

use vstd::prelude::*;

use crate::mcp::ToolResult;
use crate::text::chars_of;

verus! {

/// A failed tool result carrying `msg`.
pub fn err_result(tool: &str, msg: &str) -> (r: ToolResult)
    ensures
        r.tool@ == tool@,
        !r.ok,
        r.content@ == msg@,
{
    ToolResult { tool: tool.to_owned(), ok: false, content: msg.to_owned() }
}

/// Whether `name` matches the glob `pattern`: `*` matches any run of
/// characters, `?` any one character, every other character itself.
pub open spec fn glob(pattern: Seq<char>, name: Seq<char>) -> bool
    decreases pattern.len() + name.len(),
{
    if pattern.len() == 0 {
        name.len() == 0
    } else if pattern[0] == '*' {
        glob(pattern.drop_first(), name) || (name.len() > 0 && glob(pattern, name.drop_first()))
    } else if name.len() == 0 {
        false
    } else if pattern[0] == '?' || pattern[0] == name[0] {
        glob(pattern.drop_first(), name.drop_first())
    } else {
        false
    }
}

fn glob_from(p: &Vec<char>, n: &Vec<char>, i: usize, j: usize) -> (r: bool)
    requires
        i <= p@.len(),
        j <= n@.len(),
    ensures
        r == glob(p@.skip(i as int), n@.skip(j as int)),
    decreases p@.len() - i + n@.len() - j,
{
    let ghost ps = p@.skip(i as int);
    let ghost ns = n@.skip(j as int);
    proof {
        if i < p@.len() {
            assert(ps.drop_first() =~= p@.skip(i + 1));
            assert(ps[0] == p@[i as int]);
        }
        if j < n@.len() {
            assert(ns.drop_first() =~= n@.skip(j + 1));
            assert(ns[0] == n@[j as int]);
        }
    }
    if i == p.len() {
        return j == n.len();
    }
    if p[i] == '*' {
        if glob_from(p, n, i + 1, j) {
            return true;
        }
        return j < n.len() && glob_from(p, n, i, j + 1);
    }
    if j == n.len() {
        return false;
    }
    if p[i] == '?' || p[i] == n[j] {
        glob_from(p, n, i + 1, j + 1)
    } else {
        false
    }
}

/// Whether the file name `name` matches the glob `pattern`.
pub fn glob_match(pattern: &str, name: &str) -> (r: bool)
    ensures
        r == glob(pattern@, name@),
{
    let p = chars_of(pattern);
    let n = chars_of(name);
    assert(p@.skip(0) =~= p@);
    assert(n@.skip(0) =~= n@);
    glob_from(&p, &n, 0, 0)
}

} // verus!

verus! {

/// `parts` joined with `sep` between them.
pub fn join_strings(parts: &Vec<String>, sep: &str) -> (r: String)
    ensures
        r@ == crate::code::tui::join(crate::order::strs_view(parts@), sep@),
{
    let ghost v = crate::order::strs_view(parts@);
    let mut r = String::new();
    let mut i: usize = 0;
    assert(v.take(0) =~= Seq::<Seq<char>>::empty());
    while i < parts.len()
        invariant
            i <= parts@.len(),
            v == crate::order::strs_view(parts@),
            r@ == crate::code::tui::join(v.take(i as int), sep@),
        decreases parts@.len() - i,
    {
        proof {
            let t = v.take(i as int + 1);
            assert(t.drop_last() =~= v.take(i as int));
            assert(t.last() == parts@[i as int]@);
            if i == 0 {
                assert(t.len() == 1);
            }
        }
        if i > 0 {
            r.append(sep);
        }
        r.append(parts[i].as_str());
        i = i + 1;
    }
    assert(v.take(parts@.len() as int) =~= v);
    r
}

/// The result of `find_files`: the matching paths in ascending order, one per
/// line, or a note that none matched.
pub fn find_files_result(results: Vec<String>) -> (r: ToolResult)
    ensures
        r.tool@ == "find_files"@,
        r.ok,
        results@.len() == 0 ==> r.content@ == "No files matched."@,
        results@.len() > 0 ==> exists|sorted: Seq<Seq<char>>|
            crate::order::sorted_strs(sorted) && #[trigger] sorted.to_multiset()
                == crate::order::strs_view(results@).to_multiset() && r.content@
                == crate::code::tui::join(sorted, "\n"@),
{
    if results.len() == 0 {
        return ToolResult { tool: "find_files".to_owned(), ok: true, content: "No files matched.".to_owned() };
    }
    let sorted = crate::order::sort_strings(results);
    let content = join_strings(&sorted, "\n");
    ToolResult { tool: "find_files".to_owned(), ok: true, content }
}

/// The listing of a directory: its entries in ascending order, one per line.
pub fn listing(entries: Vec<String>) -> (r: String)
    ensures
        exists|sorted: Seq<Seq<char>>|
            crate::order::sorted_strs(sorted) && #[trigger] sorted.to_multiset()
                == crate::order::strs_view(entries@).to_multiset() && r@
                == crate::code::tui::join(sorted, "\n"@),
{
    let sorted = crate::order::sort_strings(entries);
    join_strings(&sorted, "\n")
}

} // verus!

verus! {

/// The content `read_lines` shows of a file with `lines`, for the 1-based
/// inclusive range `start..=end`: a header naming the path and the range,
/// then those lines (or the whole `content` when the range holds none).
pub open spec fn read_lines_text(path: Seq<char>, content: Seq<char>, start: nat, end: nat) -> Seq<char> {
    let lines = crate::text::text_lines(content);
    let s = if start > 0 { (start - 1) as nat } else { 0nat };
    let e = if end < lines.len() { end } else { lines.len() };
    let slice = if s < lines.len() && s < e {
        crate::code::tui::join(lines.subrange(s as int, e as int), "\n"@)
    } else {
        content
    };
    "// "@ + path + " lines "@ + crate::text::decimal(s + 1) + "–"@ + crate::text::decimal(e) + "\n"@ + slice
}

/// The result of `read_lines` on `path`, whose content is `content`.
pub fn read_lines_result(path: &str, content: &str, start: usize, end: usize) -> (r: ToolResult)
    ensures
        r.tool@ == "read_lines"@,
        r.ok,
        r.content@ == read_lines_text(path@, content@, start as nat, end as nat),
{
    let lines = crate::text::lines_of(content);
    let ghost lv = crate::text::text_lines(content@);
    assert(crate::order::strs_view(lines@) =~= lv);
    let s: usize = if start > 0 {
        start - 1
    } else {
        0
    };
    let e: usize = if end < lines.len() {
        end
    } else {
        lines.len()
    };
    let slice = if s < lines.len() && s < e {
        let mut part: Vec<String> = Vec::new();
        let mut i = s;
        while i < e
            invariant
                s <= i <= e <= lines@.len(),
                crate::order::strs_view(part@) == lv.subrange(s as int, i as int),
                lv == crate::order::strs_view(lines@),
            decreases e - i,
        {
            let ghost before = crate::order::strs_view(part@);
            let line = lines[i].clone();
            assert(line@ == lv[i as int]);
            part.push(line);
            assert(crate::order::strs_view(part@) =~= before.push(lv[i as int]));
            assert(crate::order::strs_view(part@) =~= lv.subrange(s as int, i + 1));
            i = i + 1;
        }
        join_strings(&part, "\n")
    } else {
        content.to_owned()
    };
    let mut text = "// ".to_owned();
    text.append(path);
    text.append(" lines ");
    let a = crate::text::usize_to_decimal(s + 1);
    text.append(a.as_str());
    text.append("–");
    let b = crate::text::usize_to_decimal(e);
    text.append(b.as_str());
    text.append("\n");
    text.append(slice.as_str());
    ToolResult { tool: "read_lines".to_owned(), ok: true, content: text }
}

/// What `git_tool` reports for `git {args}`: standard output, or standard
/// error when there is none, or `(no output)`; ok when git succeeded.
pub fn git_result(args: &Vec<String>, stdout: &str, stderr: &str, success: bool) -> (r: ToolResult)
    ensures
        r.tool@ == "git "@ + crate::code::tui::join(crate::order::strs_view(args@), " "@),
        r.ok == success,
        r.content@ == (if stdout@.len() > 0 {
            stdout@
        } else if stderr@.len() > 0 {
            stderr@
        } else {
            "(no output)"@
        }),
{
    let mut tool = "git ".to_owned();
    let joined = join_strings(args, " ");
    tool.append(joined.as_str());
    let content = if stdout.unicode_len() > 0 {
        stdout.to_owned()
    } else if stderr.unicode_len() > 0 {
        stderr.to_owned()
    } else {
        "(no output)".to_owned()
    };
    ToolResult { tool, ok: success, content }
}

/// What `grep_code` reports for grep's standard output.
pub fn grep_result(stdout: &str) -> (r: ToolResult)
    ensures
        r.tool@ == "grep_code"@,
        r.ok,
        r.content@ == (if stdout@.len() > 0 {
            stdout@
        } else {
            "No matches found."@
        }),
{
    let content = if stdout.unicode_len() > 0 {
        stdout.to_owned()
    } else {
        "No matches found.".to_owned()
    };
    ToolResult { tool: "grep_code".to_owned(), ok: true, content }
}

/// What `write_lines` reports after writing `path`.
pub fn wrote_result(path: &str) -> (r: ToolResult)
    ensures
        r.tool@ == "write_lines"@,
        r.ok,
        r.content@ == "Wrote "@ + path@,
{
    let mut content = "Wrote ".to_owned();
    content.append(path);
    ToolResult { tool: "write_lines".to_owned(), ok: true, content }
}

/// What `apply_diff` reports: patches are not applied yet.
pub fn apply_patch_result(path: &str) -> (r: ToolResult)
    ensures
        r.tool@ == "apply_diff"@,
        !r.ok,
        r.content@ == "apply_diff not yet implemented for "@ + path@
            + "; use write_file instead."@,
{
    let mut content = "apply_diff not yet implemented for ".to_owned();
    content.append(path);
    content.append("; use write_file instead.");
    ToolResult { tool: "apply_diff".to_owned(), ok: false, content }
}

/// The arguments of a tool call, as the extended tools read them (missing
/// string arguments are empty).
#[derive(Debug, Clone)]
pub struct ToolArgs {
    pub path: String,
    pub pattern: String,
    pub message: String,
    pub content: String,
    pub patch: String,
    pub n: Option<u64>,
    pub start: Option<u64>,
    pub end: Option<u64>,
}

/// What running an extended tool call comes down to.
#[derive(Debug, Clone)]
pub enum ToolPlan {
    /// Run git with these arguments in the working directory.
    Git(Vec<String>),
    /// Search the code for `pattern` under `path`.
    Grep { pattern: String, path: String },
    /// Find files whose name matches the glob `pattern`.
    FindFiles { pattern: String },
    /// Show lines `start..=end` (1-based) of `path`.
    ReadLines { path: String, start: u64, end: u64 },
    /// Write `content` to `path`.
    WriteLines { path: String, content: String },
    /// Answer with this result without running anything.
    Answer(ToolResult),
    /// Not an extended tool: run it as a basic tool.
    Basic,
}

/// The git arguments of a plan, as plain strings.
pub open spec fn git_plan(plan: ToolPlan) -> Option<Seq<Seq<char>>> {
    match plan {
        ToolPlan::Git(a) => Some(crate::order::strs_view(a@)),
        _ => None,
    }
}

fn strings2(a: &str, b: &str) -> (v: Vec<String>)
    ensures
        crate::order::strs_view(v@) == seq![a@, b@],
{
    let mut v: Vec<String> = Vec::new();
    v.push(a.to_owned());
    v.push(b.to_owned());
    assert(crate::order::strs_view(v@) =~= seq![a@, b@]);
    v
}

fn strings3(a: &str, b: &str, c: &str) -> (v: Vec<String>)
    ensures
        crate::order::strs_view(v@) == seq![a@, b@, c@],
{
    let mut v: Vec<String> = Vec::new();
    v.push(a.to_owned());
    v.push(b.to_owned());
    v.push(c.to_owned());
    assert(crate::order::strs_view(v@) =~= seq![a@, b@, c@]);
    v
}

/// The plan `plan_extended` makes for the tool `name` called with `args`.
pub open spec fn extended_plan(name: Seq<char>, args: ToolArgs, plan: ToolPlan) -> bool {
    if name == "git_status"@ {
        git_plan(plan) == Some(seq!["status"@, "--short"@])
    } else if name == "git_diff"@ {
        git_plan(plan) == Some(if args.path@.len() == 0 {
            seq!["diff"@]
        } else {
            seq!["diff"@, "--"@, args.path@]
        })
    } else if name == "git_log"@ {
        git_plan(plan) == Some(seq![
            "log"@,
            "--oneline"@,
            "-"@ + crate::text::decimal((match args.n { Some(n) => n, None => 10u64 }) as nat),
        ])
    } else if name == "git_add"@ {
        git_plan(plan) == Some(seq![
            "add"@,
            if args.path@.len() == 0 { "."@ } else { args.path@ },
        ])
    } else if name == "git_commit"@ {
        if args.message@.len() == 0 {
            plan matches ToolPlan::Answer(r) && r.tool@ == name && !r.ok && r.content@
                == "message arg required"@
        } else {
            git_plan(plan) == Some(seq!["commit"@, "-m"@, args.message@])
        }
    } else if name == "git_branch"@ {
        git_plan(plan) == Some(seq!["branch"@, "--show-current"@])
    } else if name == "grep_code"@ {
        if args.pattern@.len() == 0 {
            plan matches ToolPlan::Answer(r) && r.tool@ == name && !r.ok && r.content@
                == "pattern arg required"@
        } else {
            plan matches ToolPlan::Grep { pattern, path } && pattern@ == args.pattern@ && path@ == (
            if args.path@.len() == 0 {
                "."@
            } else {
                args.path@
            })
        }
    } else if name == "find_files"@ {
        plan matches ToolPlan::FindFiles { pattern } && pattern@ == args.pattern@
    } else if name == "read_lines"@ {
        plan matches ToolPlan::ReadLines { path, start, end } && path@ == args.path@ && start == (
        match args.start {
            Some(s) => s,
            None => 1u64,
        }) && end == (match args.end {
            Some(e) => e,
            None => u64::MAX,
        })
    } else if name == "write_lines"@ {
        plan matches ToolPlan::WriteLines { path, content } && path@ == args.path@ && content@
            == args.content@
    } else if name == "apply_diff"@ {
        plan matches ToolPlan::Answer(r) && r.tool@ == "apply_diff"@ && !r.ok && r.content@
            == "apply_diff not yet implemented for "@ + args.path@ + "; use write_file instead."@
    } else {
        plan is Basic
    }
}

/// What the extended tool `name` does with `args`: the git tools become git
/// runs (`git_diff` of one path when given, `git_log` of `n` commits (10 by
/// default), `git_add` of `.` by default, `git_commit` only with a message);
/// `grep_code` needs a pattern and searches `.` by default; `read_lines`
/// reads from line 1 to the end by default; `apply_diff` is not supported;
/// any other tool is a basic one.
pub fn plan_extended(name: &str, args: &ToolArgs) -> (plan: ToolPlan)
    ensures
        extended_plan(name@, *args, plan),
{
    if crate::text::str_eq(name, "git_status") {
        ToolPlan::Git(strings2("status", "--short"))
    } else if crate::text::str_eq(name, "git_diff") {
        if args.path.as_str().unicode_len() == 0 {
            let mut v: Vec<String> = Vec::new();
            v.push("diff".to_owned());
            assert(crate::order::strs_view(v@) =~= seq!["diff"@]);
            ToolPlan::Git(v)
        } else {
            ToolPlan::Git(strings3("diff", "--", args.path.as_str()))
        }
    } else if crate::text::str_eq(name, "git_log") {
        let n = match args.n {
            Some(n) => n,
            None => 10,
        };
        let mut flag = "-".to_owned();
        let digits = u64_to_decimal(n);
        flag.append(digits.as_str());
        assert(n == (match args.n {
            Some(n) => n,
            None => 10u64,
        }));
        let v = strings3("log", "--oneline", flag.as_str());
        assert(crate::order::strs_view(v@) =~= seq![
            "log"@,
            "--oneline"@,
            "-"@ + crate::text::decimal((match args.n { Some(n) => n, None => 10u64 }) as nat),
        ]);
        ToolPlan::Git(v)
    } else if crate::text::str_eq(name, "git_add") {
        if args.path.as_str().unicode_len() == 0 {
            ToolPlan::Git(strings2("add", "."))
        } else {
            ToolPlan::Git(strings2("add", args.path.as_str()))
        }
    } else if crate::text::str_eq(name, "git_commit") {
        if args.message.as_str().unicode_len() == 0 {
            ToolPlan::Answer(err_result(name, "message arg required"))
        } else {
            ToolPlan::Git(strings3("commit", "-m", args.message.as_str()))
        }
    } else if crate::text::str_eq(name, "git_branch") {
        ToolPlan::Git(strings2("branch", "--show-current"))
    } else if crate::text::str_eq(name, "grep_code") {
        if args.pattern.as_str().unicode_len() == 0 {
            ToolPlan::Answer(err_result(name, "pattern arg required"))
        } else {
            let path = if args.path.as_str().unicode_len() == 0 {
                ".".to_owned()
            } else {
                args.path.clone()
            };
            ToolPlan::Grep { pattern: args.pattern.clone(), path }
        }
    } else if crate::text::str_eq(name, "find_files") {
        ToolPlan::FindFiles { pattern: args.pattern.clone() }
    } else if crate::text::str_eq(name, "read_lines") {
        let start = match args.start {
            Some(s) => s,
            None => 1,
        };
        let end = match args.end {
            Some(e) => e,
            None => u64::MAX,
        };
        ToolPlan::ReadLines { path: args.path.clone(), start, end }
    } else if crate::text::str_eq(name, "write_lines") {
        ToolPlan::WriteLines { path: args.path.clone(), content: args.content.clone() }
    } else if crate::text::str_eq(name, "apply_diff") {
        ToolPlan::Answer(apply_patch_result(args.path.as_str()))
    } else {
        ToolPlan::Basic
    }
}

/// `n` in decimal.
fn u64_to_decimal(n: u64) -> (s: String)
    ensures
        s@ == crate::text::decimal(n as nat),
    decreases n,
{
    if n < 10 {
        crate::text::usize_to_decimal(n as usize)
    } else {
        let mut s = u64_to_decimal(n / 10);
        let d = crate::text::usize_to_decimal((n % 10) as usize);
        s.append(d.as_str());
        assert(d@ == seq![crate::text::digit_char((n % 10) as nat)]);
        s
    }
}

} // verus!

verus! {

/// Whether a directory entry is left out of `find_files`: hidden entries,
/// build output and dependencies.
pub open spec fn skipped_entry(name: Seq<char>) -> bool {
    (name.len() > 0 && name[0] == '.') || name == "target"@ || name == "node_modules"@
}

/// Whether `find_files` leaves out the entry `name`.
pub fn is_skipped_entry(name: &str) -> (r: bool)
    ensures
        r == skipped_entry(name@),
{
    (name.unicode_len() > 0 && name.get_char(0) == '.') || crate::text::str_eq(name, "target")
        || crate::text::str_eq(name, "node_modules")
}

/// The path a word mentions with a leading `@`, if it is a mention.
pub open spec fn mention_of(word: Seq<char>) -> Option<Seq<char>> {
    if word.len() > 0 && word[0] == '@' {
        Some(word.skip(1))
    } else {
        None
    }
}

/// The mentioned paths of the words of `input`, word by word (`None` for a
/// word that is no mention).
pub fn mention_paths(input: &str) -> (r: Vec<Option<String>>)
    ensures
        r@.len() == crate::code::stub::ws_words(input@).len(),
        forall|k: int| 0 <= k < r@.len() ==> match #[trigger] r@[k] {
            Some(p) => mention_of(crate::code::stub::ws_words(input@)[k]) == Some(p@),
            None => mention_of(crate::code::stub::ws_words(input@)[k]) is None,
        },
{
    let words = crate::code::stub::split_ws(input);
    let ghost ws = crate::code::stub::ws_words(input@);
    let mut out: Vec<Option<String>> = Vec::new();
    let mut i: usize = 0;
    while i < words.len()
        invariant
            i <= words@.len(),
            words@.map_values(|w: Vec<char>| w@) == ws,
            out@.len() == i,
            forall|k: int| 0 <= k < i ==> match #[trigger] out@[k] {
                Some(p) => mention_of(ws[k]) == Some(p@),
                None => mention_of(ws[k]) is None,
            },
        decreases words@.len() - i,
    {
        let w = &words[i];
        assert(ws[i as int] == w@);
        if w.len() > 0 && w[0] == '@' {
            let mut rel: Vec<char> = Vec::new();
            let mut j: usize = 1;
            while j < w.len()
                invariant
                    1 <= j <= w@.len(),
                    rel@ == w@.subrange(1, j as int),
                decreases w@.len() - j,
            {
                rel.push(w[j]);
                j = j + 1;
                assert(rel@ =~= w@.subrange(1, j as int));
            }
            assert(rel@ =~= w@.skip(1));
            out.push(Some(crate::text::string_of(&rel)));
        } else {
            out.push(None);
        }
        i = i + 1;
    }
    out
}

/// The message sent for `words` whose mentions have the contents `contents`
/// (`None`: not a mention, or unreadable): each readable mention becomes a
/// `<file>` block, every other word stays, each followed by a space.
pub open spec fn expansion(words: Seq<Seq<char>>, contents: Seq<Option<Seq<char>>>) -> Seq<char>
    decreases words.len(),
{
    if words.len() == 0 {
        Seq::empty()
    } else {
        let k = words.len() - 1;
        let w = words[k];
        expansion(words.drop_last(), contents) + (match (mention_of(w), if k < contents.len() { contents[k] } else { None }) {
            (Some(rel), Some(c)) => "\n<file path=\""@ + rel + "\">\n"@ + c + "\n</file>\n"@,
            _ => w,
        }) + " "@
    }
}

/// Expands the `@path` mentions of `input` by inlining the files'
/// contents: `contents[k]` holds the content of the file the `k`-th word
/// mentions, if that word is a mention and the file could be read.
pub fn expand_mentions(input: &str, contents: &Vec<Option<String>>) -> (r: String)
    ensures
        r@ == expansion(crate::code::stub::ws_words(input@), contents@.map_values(|o: Option<String>| match o {
            Some(s) => Some(s@),
            None => None,
        })),
{
    let ghost cv = contents@.map_values(|o: Option<String>| match o {
        Some(s) => Some(s@),
        None => None,
    });
    let words = crate::code::stub::split_ws(input);
    let ghost ws = crate::code::stub::ws_words(input@);
    let mut r = String::new();
    let mut i: usize = 0;
    assert(ws.take(0) =~= Seq::<Seq<char>>::empty());
    while i < words.len()
        invariant
            i <= words@.len(),
            words@.map_values(|w: Vec<char>| w@) == ws,
            cv == contents@.map_values(|o: Option<String>| match o {
                Some(s) => Some(s@),
                None => None,
            }),
            r@ == expansion(ws.take(i as int), cv),
        decreases words@.len() - i,
    {
        let w = &words[i];
        let ghost t = ws.take(i as int + 1);
        proof {
            assert(t.drop_last() =~= ws.take(i as int));
            assert(t[i as int] == w@);
        }
        let mut done = false;
        if w.len() > 0 && w[0] == '@' && i < contents.len() {
            match &contents[i] {
                Some(c) => {
                    let mut rel: Vec<char> = Vec::new();
                    let mut j: usize = 1;
                    while j < w.len()
                        invariant
                            1 <= j <= w@.len(),
                            rel@ == w@.subrange(1, j as int),
                        decreases w@.len() - j,
                    {
                        rel.push(w[j]);
                        j = j + 1;
                        assert(rel@ =~= w@.subrange(1, j as int));
                    }
                    assert(rel@ =~= w@.skip(1));
                    let rs = crate::text::string_of(&rel);
                    r.append("\n<file path=\"");
                    r.append(rs.as_str());
                    r.append("\">\n");
                    r.append(c.as_str());
                    r.append("\n</file>\n");
                    done = true;
                },
                None => {},
            }
        }
        if !done {
            let ws_str = crate::text::string_of(w);
            r.append(ws_str.as_str());
        }
        r.append(" ");
        i = i + 1;
    }
    assert(ws.take(words@.len() as int) =~= ws);
    r
}

} // verus!
