//! The stand-in for the model when no weights are loaded: it answers from
//! keywords of the prompt, calling the tools a real model would call.

use vstd::prelude::*;

use crate::mcp::McpConfig;
use crate::text::{
    chars_of, contains_exec, contains_seq, is_whitespace, is_ws, lowercase, starts_with,
    string_of, to_lowercase, trim, trim_ws,
};
use crate::updater::{split_char, split_on_char};

verus! {

/// The runs of non-white-space characters of `s` (`str::split_whitespace`).
pub open spec fn ws_words(s: Seq<char>) -> Seq<Seq<char>>
    decreases s.len(),
{
    if s.len() == 0 {
        Seq::empty()
    } else {
        let r = ws_words(s.drop_last());
        if is_ws(s.last()) {
            r
        } else if s.len() >= 2 && !is_ws(s[s.len() - 2]) {
            r.update(r.len() - 1, r.last().push(s.last()))
        } else {
            r.push(seq![s.last()])
        }
    }
}

pub(crate) proof fn lemma_ws_words_nonempty(s: Seq<char>)
    ensures
        s.len() > 0 && !is_ws(s.last()) ==> ws_words(s).len() > 0,
    decreases s.len(),
{
    if s.len() > 0 {
        lemma_ws_words_nonempty(s.drop_last());
        if s.len() >= 2 && !is_ws(s[s.len() - 2]) {
            assert(s.drop_last().last() == s[s.len() - 2]);
        }
    }
}

/// The words of `s`, split at white space.
pub fn split_ws(s: &str) -> (r: Vec<Vec<char>>)
    ensures
        r@.map_values(|w: Vec<char>| w@) == ws_words(s@),
{
    let chars = chars_of(s);
    let mut words: Vec<Vec<char>> = Vec::new();
    let mut i: usize = 0;
    while i < chars.len()
        invariant
            i <= chars@.len(),
            chars@ == s@,
            words@.map_values(|w: Vec<char>| w@) == ws_words(chars@.take(i as int)),
        decreases chars@.len() - i,
    {
        let c = chars[i];
        let ghost prev = chars@.take(i as int);
        let ghost before = words@.map_values(|w: Vec<char>| w@);
        proof {
            assert(chars@.take(i as int + 1).drop_last() =~= prev);
            assert(chars@.take(i as int + 1).last() == c);
            if i >= 1 {
                assert(chars@.take(i as int + 1)[i - 1] == chars@[i - 1]);
                assert(prev.last() == chars@[i - 1]);
                lemma_ws_words_nonempty(prev);
            }
        }
        if !is_whitespace(c) {
            if i > 0 && !is_whitespace(chars[i - 1]) {
                let last = words.len() - 1;
                let mut w = words.remove(last);
                w.push(c);
                words.push(w);
                proof {
                    assert(words@.map_values(|w: Vec<char>| w@) =~= before.update(
                        before.len() - 1,
                        before.last().push(c),
                    ));
                }
            } else {
                let mut w: Vec<char> = Vec::new();
                w.push(c);
                words.push(w);
                proof {
                    assert(words@.map_values(|w: Vec<char>| w@) =~= before.push(seq![c]));
                }
            }
        }
        i = i + 1;
    }
    assert(chars@.take(chars@.len() as int) =~= chars@);
    words
}

/// Quote characters stripped from the ends of a word.
pub open spec fn is_quote(c: char) -> bool {
    c == '\'' || c == '"' || c == '`'
}

/// `w` without its leading quote characters.
pub open spec fn strip_front_quotes(w: Seq<char>) -> Seq<char>
    decreases w.len(),
{
    if w.len() > 0 && is_quote(w[0]) {
        strip_front_quotes(w.drop_first())
    } else {
        w
    }
}

/// `w` without its trailing quote characters.
pub open spec fn strip_back_quotes(w: Seq<char>) -> Seq<char>
    decreases w.len(),
{
    if w.len() > 0 && is_quote(w.last()) {
        strip_back_quotes(w.drop_last())
    } else {
        w
    }
}

/// `w` without quote characters at either end (`str::trim_matches`).
pub open spec fn strip_quotes(w: Seq<char>) -> Seq<char> {
    strip_back_quotes(strip_front_quotes(w))
}

fn strip_quotes_exec(w: &Vec<char>) -> (r: Vec<char>)
    ensures
        r@ == strip_quotes(w@),
{
    let mut a: usize = 0;
    assert(w@.skip(0) =~= w@);
    while a < w.len() && (w[a] == '\'' || w[a] == '"' || w[a] == '`')
        invariant
            a <= w@.len(),
            strip_front_quotes(w@.skip(a as int)) == strip_front_quotes(w@),
        decreases w@.len() - a,
    {
        assert(w@.skip(a as int).drop_first() =~= w@.skip(a as int + 1));
        a = a + 1;
    }
    let ghost front = w@.skip(a as int);
    assert(strip_front_quotes(front) == front);
    let mut b: usize = w.len();
    assert(front.take(front.len() as int) =~= front);
    while b > a && (w[b - 1] == '\'' || w[b - 1] == '"' || w[b - 1] == '`')
        invariant
            a <= b <= w@.len(),
            front == w@.skip(a as int),
            strip_back_quotes(front.take(b - a)) == strip_back_quotes(front),
        decreases b,
    {
        assert(front.take(b - a - 1) =~= front.take(b - a).drop_last());
        b = b - 1;
    }
    let mut r: Vec<char> = Vec::new();
    let mut i: usize = a;
    while i < b
        invariant
            a <= i <= b <= w@.len(),
            r@ == w@.subrange(a as int, i as int),
        decreases b - i,
    {
        r.push(w[i]);
        i = i + 1;
        assert(r@ =~= w@.subrange(a as int, i as int));
    }
    assert(r@ =~= front.take(b - a));
    r
}

/// Whether a word looks like a file path: it holds `/` or `.` and is no
/// web address.
pub open spec fn is_path_like(w: Seq<char>) -> bool {
    (w.contains('/') || w.contains('.')) && !starts_with(w, "http"@)
}

/// The first word of `words` that, stripped of quotes, looks like a path.
pub open spec fn first_path(words: Seq<Seq<char>>) -> Option<Seq<char>>
    decreases words.len(),
{
    if words.len() == 0 {
        None
    } else if is_path_like(strip_quotes(words[0])) {
        Some(strip_quotes(words[0]))
    } else {
        first_path(words.drop_first())
    }
}

fn has_char(w: &Vec<char>, c: char) -> (r: bool)
    ensures
        r == w@.contains(c),
{
    let mut i: usize = 0;
    while i < w.len()
        invariant
            i <= w@.len(),
            forall|t: int| 0 <= t < i ==> w@[t] != c,
        decreases w@.len() - i,
    {
        if w[i] == c {
            return true;
        }
        i = i + 1;
    }
    false
}

fn starts_with_http(w: &Vec<char>) -> (r: bool)
    ensures
        r == starts_with(w@, "http"@),
{
    proof {
        reveal_strlit("http");
    }
    let r = w.len() >= 4 && w[0] == 'h' && w[1] == 't' && w[2] == 't' && w[3] == 'p';
    proof {
        if w@.len() >= 4 {
            if r {
                assert(w@.take(4) =~= "http"@);
            } else {
                assert(w@.take(4)[0] != 'h' || w@.take(4)[1] != 't' || w@.take(4)[2] != 't' || w@.take(4)[3] != 'p');
            }
        }
    }
    r
}

/// The first word of the prompt that looks like a file path.
pub fn extract_likely_path(prompt: &str) -> (r: Option<String>)
    ensures
        match r {
            Some(p) => first_path(ws_words(prompt@)) == Some(p@),
            None => first_path(ws_words(prompt@)) is None,
        },
{
    let words = split_ws(prompt);
    let ghost ws = words@.map_values(|w: Vec<char>| w@);
    let mut i: usize = 0;
    assert(ws.skip(0) =~= ws);
    while i < words.len()
        invariant
            i <= words@.len(),
            ws == words@.map_values(|w: Vec<char>| w@),
            ws == ws_words(prompt@),
            first_path(ws.skip(i as int)) == first_path(ws),
        decreases words@.len() - i,
    {
        let w = strip_quotes_exec(&words[i]);
        proof {
            assert(ws.skip(i as int)[0] == words@[i as int]@);
            assert(ws.skip(i as int).drop_first() =~= ws.skip(i as int + 1));
        }
        if (has_char(&w, '/') || has_char(&w, '.')) && !starts_with_http(&w) {
            return Some(string_of(&w));
        }
        i = i + 1;
    }
    None
}

/// The text between the first two occurrences of `"`, `'` or `` ` `` (tried
/// in that order), or `"fn "` when no such pair exists.
pub open spec fn search_pattern(prompt: Seq<char>) -> Seq<char> {
    let a = split_char(prompt, '"');
    let b = split_char(prompt, '\'');
    let c = split_char(prompt, '`');
    if a.len() >= 3 {
        a[1]
    } else if b.len() >= 3 {
        b[1]
    } else if c.len() >= 3 {
        c[1]
    } else {
        "fn "@
    }
}

/// The pattern to search for: the first quoted piece of the prompt.
pub fn extract_search_pattern(prompt: &str) -> (r: String)
    ensures
        r@ == search_pattern(prompt@),
{
    let a = split_on_char(prompt, '"');
    if a.len() >= 3 {
        assert(a@.map_values(|p: Vec<char>| p@)[1] == a@[1]@);
        return string_of(&a[1]);
    }
    let b = split_on_char(prompt, '\'');
    if b.len() >= 3 {
        assert(b@.map_values(|p: Vec<char>| p@)[1] == b@[1]@);
        return string_of(&b[1]);
    }
    let c = split_on_char(prompt, '`');
    if c.len() >= 3 {
        assert(c@.map_values(|p: Vec<char>| p@)[1] == c@[1]@);
        return string_of(&c[1]);
    }
    "fn ".to_owned()
}

/// The last line of `s` (`str::lines().last()`, before trimming): a final
/// line break ends the last line rather than starting an empty one.
pub open spec fn last_line(s: Seq<char>) -> Seq<char> {
    let t = if s.len() > 0 && s.last() == '\n' {
        s.drop_last()
    } else {
        s
    };
    t.skip(last_newline_end(t))
}

/// One past the last line break of `t` (0 if it has none).
pub open spec fn last_newline_end(t: Seq<char>) -> int
    decreases t.len(),
{
    if t.len() == 0 {
        0
    } else if t.last() == '\n' {
        t.len() as int
    } else {
        last_newline_end(t.drop_last())
    }
}

proof fn lemma_last_newline_end_bounds(t: Seq<char>)
    ensures
        0 <= last_newline_end(t) <= t.len(),
    decreases t.len(),
{
    if t.len() > 0 && t.last() != '\n' {
        lemma_last_newline_end_bounds(t.drop_last());
    }
}

/// The last line of `s`.
pub fn last_line_of(s: &str) -> (r: String)
    ensures
        r@ == last_line(s@),
{
    let n = s.unicode_len();
    let end = if n > 0 && s.get_char(n - 1) == '\n' {
        n - 1
    } else {
        n
    };
    let ghost t = s@.take(end as int);
    assert(t =~= (if s@.len() > 0 && s@.last() == '\n' { s@.drop_last() } else { s@ }));
    let mut j: usize = end;
    assert(t.take(end as int) =~= t);
    while j > 0 && s.get_char(j - 1) != '\n'
        invariant
            j <= end <= n,
            n == s@.len(),
            t == s@.take(end as int),
            last_newline_end(t.take(j as int)) == last_newline_end(t),
        decreases j,
    {
        assert(t.take(j as int - 1) =~= t.take(j as int).drop_last());
        j = j - 1;
    }
    proof {
        if j > 0 {
            assert(t.take(j as int).last() == s@[j - 1]);
        }
        assert(last_newline_end(t.take(j as int)) == j);
        lemma_last_newline_end_bounds(t);
        assert(t.skip(j as int) =~= s@.subrange(j as int, end as int));
    }
    s.substring_char(j, end).to_owned()
}

/// The stand-in's answer to `prompt`, whose lower-case form is `lower`.
pub open spec fn stub_text(prompt: Seq<char>, lower: Seq<char>) -> Seq<char> {
    if contains_seq(lower, "git status"@) || contains_seq(lower, "what changed"@) {
        "Let me check the current git status for you.\n<tool_call>{\"tool\":\"git_status\"}</tool_call>\n\nI'll also check the recent commit history.\n<tool_call>{\"tool\":\"git_log\",\"n\":5}</tool_call>"@
    } else if contains_seq(lower, "read"@) || contains_seq(lower, "show"@) || contains_seq(
        lower,
        "what is in"@,
    ) {
        "Let me read that file for you.\n<tool_call>{\"tool\":\"read_file\",\"path\":\""@ + (
        match first_path(ws_words(prompt)) {
            Some(p) => p,
            None => "src/main.rs"@,
        }) + "\"}</tool_call>"@
    } else if contains_seq(lower, "list"@) || contains_seq(lower, "files"@) || contains_seq(
        lower,
        "directory"@,
    ) {
        "Let me list the project structure.\n<tool_call>{\"tool\":\"list_dir\",\"path\":\".\"}</tool_call>"@
    } else if contains_seq(lower, "search"@) || contains_seq(lower, "find"@) || contains_seq(
        lower,
        "where is"@,
    ) {
        "Searching the codebase for that pattern.\n<tool_call>{\"tool\":\"grep_code\",\"pattern\":\""@
            + search_pattern(prompt) + "\"}</tool_call>"@
    } else {
        "I'm running in stub mode — model weights are not yet loaded. Once you train a model in Quark GUI and export it with `quark-code`, I'll respond intelligently to: \""@
            + trim(last_line(prompt))
            + "\"\n\nIn the meantime, try commands like:\n- `/init` — analyse this project\n- `/plan` — switch to plan mode\n- `/build` — switch to build mode\n- `@src/main.rs explain this file`"@
    }
}

fn has(lower: &Vec<char>, word: &str) -> (r: bool)
    ensures
        r == contains_seq(lower@, word@),
{
    let w = chars_of(word);
    contains_exec(lower, &w)
}

/// The stand-in's answer to `prompt`, given its lower-case form `lower`.
pub fn stub_response(prompt: &str, lower: &str) -> (r: String)
    ensures
        r@ == stub_text(prompt@, lower@),
{
    let l = chars_of(lower);
    if has(&l, "git status") || has(&l, "what changed") {
        "Let me check the current git status for you.\n<tool_call>{\"tool\":\"git_status\"}</tool_call>\n\nI'll also check the recent commit history.\n<tool_call>{\"tool\":\"git_log\",\"n\":5}</tool_call>".to_owned()
    } else if has(&l, "read") || has(&l, "show") || has(&l, "what is in") {
        let mut r = "Let me read that file for you.\n<tool_call>{\"tool\":\"read_file\",\"path\":\"".to_owned();
        match extract_likely_path(prompt) {
            Some(p) => r.append(p.as_str()),
            None => r.append("src/main.rs"),
        }
        r.append("\"}</tool_call>");
        r
    } else if has(&l, "list") || has(&l, "files") || has(&l, "directory") {
        "Let me list the project structure.\n<tool_call>{\"tool\":\"list_dir\",\"path\":\".\"}</tool_call>".to_owned()
    } else if has(&l, "search") || has(&l, "find") || has(&l, "where is") {
        let mut r = "Searching the codebase for that pattern.\n<tool_call>{\"tool\":\"grep_code\",\"pattern\":\"".to_owned();
        let p = extract_search_pattern(prompt);
        r.append(p.as_str());
        r.append("\"}</tool_call>");
        r
    } else {
        let mut r = "I'm running in stub mode — model weights are not yet loaded. Once you train a model in Quark GUI and export it with `quark-code`, I'll respond intelligently to: \"".to_owned();
        let line = last_line_of(prompt);
        let t = trim_ws(line.as_str());
        r.append(t.as_str());
        r.append("\"\n\nIn the meantime, try commands like:\n- `/init` — analyse this project\n- `/plan` — switch to plan mode\n- `/build` — switch to build mode\n- `@src/main.rs explain this file`");
        r
    }
}

/// A heuristic answer to `prompt` that shows tool use without a real model.
pub fn generate_stub_response(prompt: &str, _cfg: &McpConfig) -> (r: String)
    ensures
        r@ == stub_text(prompt@, lowercase(prompt@)),
{
    let lower = to_lowercase(prompt);
    stub_response(prompt, lower.as_str())
}

} // verus!
