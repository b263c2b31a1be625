//! The chat template shared by the chat front-ends, the coding agent and
//! chat fine-tuning, so models see the same format in training and use.
//!
//! ```text
//! <system>
//! You are…
//! </system>
//!
//! <user>
//! Hi
//! </user>
//!
//! <assistant>
//! Let me look. <tool_call>{"tool":"read_file","path":"a.rs"}</tool_call>
//! </assistant>
//!
//! <tool_result>
//! read_file (ok):
//! fn main() {}
//! </tool_result>
//!
//! <assistant>
//! …
//! ```

use vstd::prelude::*;
use vstd::utf8::{encode_utf8, is_ascii_chars};
use crate::mcp::{status_word, ToolResult};
use crate::text::{ends_with, occurs_at, owned, trim_end_char, trim_end_matches_char};

verus! {

#[derive(Debug, Clone, Copy, PartialEq, Eq, Structural)]
pub enum ChatRole {
    System,
    User,
    Assistant,
    Tool,
}

#[derive(Debug, Clone)]
pub struct ChatMessage {
    pub role: ChatRole,
    pub content: String,
}

impl ChatMessage {
    pub fn new(role: ChatRole, content: &str) -> (m: Self)
        ensures
            m.role == role,
            m.content@ == content@,
    {
        ChatMessage { role, content: owned(content) }
    }

    pub fn system(content: &str) -> (m: Self)
        ensures
            m.role == ChatRole::System,
            m.content@ == content@,
    {
        Self::new(ChatRole::System, content)
    }

    pub fn user(content: &str) -> (m: Self)
        ensures
            m.role == ChatRole::User,
            m.content@ == content@,
    {
        Self::new(ChatRole::User, content)
    }

    pub fn assistant(content: &str) -> (m: Self)
        ensures
            m.role == ChatRole::Assistant,
            m.content@ == content@,
    {
        Self::new(ChatRole::Assistant, content)
    }

    /// A tool result, as fed back to the model after a `<tool_call>`:
    /// `"{tool} ({ok|error}):\n{content}"`.
    pub fn tool_result(result: &ToolResult) -> (m: Self)
        ensures
            m.role == ChatRole::Tool,
            m.content@ == tool_result_text(result.tool@, result.ok, result.content@),
    {
        let mut content = result.tool.clone();
        content.append(" (");
        content.append(status_word(result.ok));
        content.append("):\n");
        content.append(result.content.as_str());
        ChatMessage { role: ChatRole::Tool, content }
    }
}

/// The content of a tool-result message.
pub open spec fn tool_result_text(tool: Seq<char>, ok: bool, content: Seq<char>) -> Seq<char> {
    tool + " ("@ + (if ok { "ok"@ } else { "error"@ }) + "):\n"@ + content
}

/// Where the model's turn ends. Generation stops at any of these, which also
/// keeps the model from writing the user's next turn or its own tool results.
pub const STOP_STRINGS: [&'static str; 3] = ["</assistant>", "<user>", "<tool_result>"];

/// The tag name a role's turns are wrapped in.
pub open spec fn tag_of(role: ChatRole) -> Seq<char> {
    match role {
        ChatRole::System => "system"@,
        ChatRole::User => "user"@,
        ChatRole::Assistant => "assistant"@,
        ChatRole::Tool => "tool_result"@,
    }
}

fn tag(role: ChatRole) -> (t: &'static str)
    ensures
        t@ == tag_of(role),
{
    match role {
        ChatRole::System => "system",
        ChatRole::User => "user",
        ChatRole::Assistant => "assistant",
        ChatRole::Tool => "tool_result",
    }
}

/// The segments one message renders to, each flagged with whether the model
/// learns to produce it: for an assistant turn its content plus closing tag,
/// for every other turn nothing. Trailing newlines of the content are dropped.
pub open spec fn message_segments(role: ChatRole, content: Seq<char>) -> Seq<(Seq<char>, bool)> {
    let tag = tag_of(role);
    let body = trim_end_char(content, '\n');
    if role == ChatRole::Assistant {
        seq![
            ("<"@ + tag + ">\n"@, false),
            (body + "\n</"@ + tag + ">"@, true),
            ("\n\n"@, false),
        ]
    } else {
        seq![("<"@ + tag + ">\n"@ + body + "\n</"@ + tag + ">\n\n"@, false)]
    }
}

/// The segments a whole conversation renders to, in order.
pub open spec fn training_segments(messages: Seq<ChatMessage>) -> Seq<(Seq<char>, bool)> {
    messages.map_values(|m: ChatMessage| message_segments(m.role, m.content@)).flatten()
}

/// The text of a list of segments.
pub open spec fn segments_text(segments: Seq<(Seq<char>, bool)>) -> Seq<char> {
    segments.map_values(|p: (Seq<char>, bool)| p.0).flatten()
}

/// The view of rendered segments.
pub open spec fn segments_view(segments: Seq<(String, bool)>) -> Seq<(Seq<char>, bool)> {
    segments.map_values(|p: (String, bool)| (p.0@, p.1))
}

fn push_segments(segments: &mut Vec<(String, bool)>, msg: &ChatMessage)
    ensures
        segments_view(final(segments)@) == segments_view(old(segments)@) + message_segments(
            msg.role,
            msg.content@,
        ),
{
    let tag = tag(msg.role);
    let content = trim_end_matches_char(msg.content.as_str(), '\n');
    let ghost before = segments_view(segments@);
    if msg.role == ChatRole::Assistant {
        let mut open = owned("<");
        open.append(tag);
        open.append(">\n");
        let mut body = content;
        body.append("\n</");
        body.append(tag);
        body.append(">");
        segments.push((open, false));
        segments.push((body, true));
        segments.push((owned("\n\n"), false));
    } else {
        let mut s = owned("<");
        s.append(tag);
        s.append(">\n");
        s.append(content.as_str());
        s.append("\n</");
        s.append(tag);
        s.append(">\n\n");
        segments.push((s, false));
    }
    assert(segments_view(segments@) =~= before + message_segments(msg.role, msg.content@));
}

/// Render `messages` as text segments flagged with whether the model should
/// learn to produce them: assistant content plus its closing tag (so the model
/// learns to stop). Concatenating the segments gives the rendered transcript.
pub fn render_training_segments(messages: &[ChatMessage]) -> (segments: Vec<(String, bool)>)
    ensures
        segments_view(segments@) == training_segments(messages@),
{
    let mut segments: Vec<(String, bool)> = Vec::new();
    let ghost f = |m: ChatMessage| message_segments(m.role, m.content@);
    let mut i: usize = 0;
    while i < messages.len()
        invariant
            i <= messages@.len(),
            f == (|m: ChatMessage| message_segments(m.role, m.content@)),
            segments_view(segments@) == messages@.take(i as int).map_values(f).flatten(),
        decreases messages@.len() - i,
    {
        push_segments(&mut segments, &messages[i]);
        proof {
            let t = messages@.take(i as int + 1);
            assert(t =~= messages@.take(i as int).push(messages@[i as int]));
            assert(t.map_values(f) =~= messages@.take(i as int).map_values(f).push(f(messages@[i as int])));
            messages@.take(i as int).map_values(f).lemma_flatten_push(f(messages@[i as int]));
        }
        i = i + 1;
    }
    assert(messages@.take(i as int) =~= messages@);
    segments
}

/// Render `messages` and open the assistant's next turn.
pub fn render_prompt(messages: &[ChatMessage]) -> (prompt: String)
    ensures
        prompt@ == segments_text(training_segments(messages@)) + "<assistant>\n"@,
{
    let segments = render_training_segments(messages);
    let ghost g = |p: (Seq<char>, bool)| p.0;
    let ghost segs = segments_view(segments@);
    let mut out = String::new();
    let mut i: usize = 0;
    while i < segments.len()
        invariant
            i <= segments@.len(),
            g == (|p: (Seq<char>, bool)| p.0),
            segs == segments_view(segments@),
            out@ == segs.take(i as int).map_values(g).flatten(),
        decreases segments@.len() - i,
    {
        out.append(segments[i].0.as_str());
        proof {
            let t = segs.take(i as int + 1);
            assert(t =~= segs.take(i as int).push(segs[i as int]));
            assert(t.map_values(g) =~= segs.take(i as int).map_values(g).push(g(segs[i as int])));
            segs.take(i as int).map_values(g).lemma_flatten_push(g(segs[i as int]));
        }
        i = i + 1;
    }
    assert(segs.take(i as int) =~= segs);
    out.append("<assistant>\n");
    out
}

/// What the model learns from an assistant message with `content`: the
/// content, without trailing newlines, and the closing tag.
pub open spec fn learned_text(content: Seq<char>) -> Seq<char> {
    trim_end_char(content, '\n') + "\n</assistant>"@
}

/// The texts of the trainable segments, in order.
pub open spec fn trainable_texts(segments: Seq<(Seq<char>, bool)>) -> Seq<Seq<char>> {
    segments.filter(|p: (Seq<char>, bool)| p.1).map_values(|p: (Seq<char>, bool)| p.0)
}

/// What the model learns from each assistant message, in order.
pub open spec fn assistant_texts(messages: Seq<ChatMessage>) -> Seq<Seq<char>> {
    messages.filter(|m: ChatMessage| m.role == ChatRole::Assistant).map_values(
        |m: ChatMessage| learned_text(m.content@),
    )
}

/// Only assistant turns are trained on: the trainable segments of a
/// rendered conversation are, in order, exactly the assistant messages'
/// contents with their closing tags; nothing of a system, user or tool turn
/// is ever trainable.
pub proof fn law_only_assistant_content_is_trainable(messages: Seq<ChatMessage>)
    ensures
        trainable_texts(training_segments(messages)) == assistant_texts(messages),
    decreases messages.len(),
{
    let f = |m: ChatMessage| message_segments(m.role, m.content@);
    let pred = |p: (Seq<char>, bool)| p.1;
    let g = |p: (Seq<char>, bool)| p.0;
    let is_asst = |m: ChatMessage| m.role == ChatRole::Assistant;
    let h = |m: ChatMessage| learned_text(m.content@);
    if messages.len() == 0 {
        assert(training_segments(messages) =~= Seq::<(Seq<char>, bool)>::empty());
        reveal(Seq::filter);
        assert(trainable_texts(training_segments(messages)) =~= Seq::<Seq<char>>::empty());
        assert(assistant_texts(messages) =~= Seq::<Seq<char>>::empty());
    } else {
        let init = messages.drop_last();
        let last = messages.last();
        law_only_assistant_content_is_trainable(init);
        assert(messages.map_values(f) =~= init.map_values(f).push(f(last)));
        init.map_values(f).lemma_flatten_push(f(last));
        let a = training_segments(init);
        let b = message_segments(last.role, last.content@);
        assert(training_segments(messages) == a + b);
        Seq::filter_distributes_over_add(a, b, pred);
        assert((a.filter(pred) + b.filter(pred)).map_values(g) =~= a.filter(pred).map_values(g) + b.filter(
            pred,
        ).map_values(g));
        reveal(Seq::filter);
        assert(messages.filter(is_asst) == if is_asst(last) {
            init.filter(is_asst).push(last)
        } else {
            init.filter(is_asst)
        });
        let e = Seq::<(Seq<char>, bool)>::empty();
        assert(e.filter(pred) =~= e);
        if last.role == ChatRole::Assistant {
            let b1 = b.drop_last();
            let b0 = b1.drop_last();
            assert(b.len() == 3 && !pred(b.last()) && pred(b1.last()) && !pred(b0.last()));
            assert(b0.drop_last() =~= e);
            assert(b0.filter(pred) == b0.drop_last().filter(pred));
            assert(b1.filter(pred) == b0.filter(pred).push(b1.last()));
            assert(b.filter(pred) == b1.filter(pred));
            assert(b.filter(pred) =~= seq![b[1]]);
            reveal_strlit("\n</");
            reveal_strlit("assistant");
            reveal_strlit(">");
            reveal_strlit("\n</assistant>");
            let body = trim_end_char(last.content@, '\n');
            assert(body + "\n</"@ + "assistant"@ + ">"@ =~= learned_text(last.content@));
            assert(b.filter(pred).map_values(g) =~= seq![learned_text(last.content@)]);
            assert(assistant_texts(messages) =~= assistant_texts(init).push(learned_text(last.content@)));
        } else {
            assert(b.len() == 1 && !pred(b.last()));
            assert(b.drop_last() =~= e);
            assert(b.filter(pred) == b.drop_last().filter(pred));
            assert(b.filter(pred).map_values(g) =~= Seq::<Seq<char>>::empty());
            assert(assistant_texts(messages) =~= assistant_texts(init));
        }
    }
}

/// The UTF-8 bytes of each stop string.
pub open spec fn stop_bytes(stops: Seq<String>, k: int) -> Seq<u8> {
    encode_utf8(stops[k]@)
}

/// Whether some non-empty stop string starts at byte `i` of `text`.
pub open spec fn stop_at(text: Seq<u8>, stops: Seq<String>, i: int) -> bool {
    exists|k: int|
        0 <= k < stops.len() && stop_bytes(stops, k).len() > 0 && occurs_at(text, #[trigger] stop_bytes(stops, k), i)
}

fn bytes_occur_at(s: &[u8], p: &[u8], i: usize) -> (r: bool)
    ensures
        r == occurs_at(s@, p@, i as int),
{
    if i > s.len() || p.len() > s.len() - i {
        return false;
    }
    let mut j: usize = 0;
    while j < p.len()
        invariant
            j <= p@.len(),
            i + p@.len() <= s@.len(),
            s@.len() == s.len(),
            p@.len() == p.len(),
            forall|t: int| 0 <= t < j ==> s@[i + t] == p@[t],
        decreases p@.len() - j,
    {
        if s[i + j] != p[j] {
            assert(s@.subrange(i as int, i + p@.len())[j as int] != p@[j as int]);
            return false;
        }
        j = j + 1;
    }
    assert(s@.subrange(i as int, i + p@.len()) =~= p@);
    true
}

/// Byte offset of the earliest stop string in `text`, if any.
pub fn find_stop(text: &str, stops: &[String]) -> (r: Option<usize>)
    ensures
        match r {
            Some(p) => stop_at(encode_utf8(text@), stops@, p as int) && forall|i: int|
                0 <= i < p ==> !stop_at(encode_utf8(text@), stops@, i),
            None => forall|i: int| !stop_at(encode_utf8(text@), stops@, i),
        },
{
    let t = text.as_bytes();
    let ghost tb = encode_utf8(text@);
    let mut i: usize = 0;
    while i < t.len()
        invariant
            t@ == tb,
            tb == encode_utf8(text@),
            i <= t@.len(),
            forall|q: int| 0 <= q < i ==> !stop_at(tb, stops@, q),
        decreases t@.len() - i,
    {
        let mut k: usize = 0;
        while k < stops.len()
            invariant
                t@ == tb,
                tb == encode_utf8(text@),
            tb == encode_utf8(text@),
                i < t@.len(),
                k <= stops@.len(),
                forall|q: int| 0 <= q < i ==> !stop_at(tb, stops@, q),
                forall|j: int|
                    0 <= j < k ==> !(stop_bytes(stops@, j).len() > 0 && occurs_at(
                        tb,
                        #[trigger] stop_bytes(stops@, j),
                        i as int,
                    )),
            decreases stops@.len() - k,
        {
            let sb = stops[k].as_str().as_bytes();
            assert(sb@ == stop_bytes(stops@, k as int));
            if sb.len() > 0 && bytes_occur_at(t, sb, i) {
                assert(stop_bytes(stops@, k as int).len() > 0 && occurs_at(tb, stop_bytes(stops@, k as int), i as int));
                return Some(i);
            }
            k = k + 1;
        }
        i = i + 1;
    }
    assert forall|q: int| !stop_at(tb, stops@, q) by {
        if q >= t@.len() {
            if stop_at(tb, stops@, q) {
                let k = choose|k: int|
                    0 <= k < stops@.len() && stop_bytes(stops@, k).len() > 0 && occurs_at(
                        tb,
                        #[trigger] stop_bytes(stops@, k),
                        q,
                    );
            }
        }
    }
    None
}

/// Whether the first `k` bytes of a stop string (a proper, non-empty prefix
/// of it) end `text`.
pub open spec fn partial_stop(text: Seq<u8>, stop: Seq<u8>, k: int) -> bool {
    1 <= k < stop.len() && ends_with(text, stop.take(k))
}

fn bytes_end_with(t: &[u8], p: &[u8], k: usize) -> (r: bool)
    requires
        k <= p@.len(),
    ensures
        r == ends_with(t@, p@.take(k as int)),
{
    if k > t.len() {
        return false;
    }
    let base = t.len() - k;
    let mut j: usize = 0;
    while j < k
        invariant
            j <= k,
            k <= p@.len(),
            base + k == t@.len(),
            t@.len() == t.len(),
            p@.len() == p.len(),
            forall|x: int| 0 <= x < j ==> t@[base + x] == p@[x],
        decreases k - j,
    {
        if t[base + j] != p[j] {
            assert(t@.skip(base as int)[j as int] != p@.take(k as int)[j as int]);
            return false;
        }
        j = j + 1;
    }
    assert(t@.skip(base as int) =~= p@.take(k as int));
    true
}

/// Length of the longest suffix of `text` that is a proper prefix of a stop
/// string. Streaming holds this back until it's clear it isn't a stop.
pub fn partial_stop_len(text: &str, stops: &[String]) -> (r: usize)
    requires
        forall|k: int| 0 <= k < stops@.len() ==> is_ascii_chars(#[trigger] stops@[k]@),
    ensures
        r == 0 || exists|k: int| 0 <= k < stops@.len() && #[trigger] partial_stop(encode_utf8(text@), stop_bytes(stops@, k), r as int),
        forall|k: int, n: int|
            0 <= k < stops@.len() && #[trigger] partial_stop(encode_utf8(text@), stop_bytes(stops@, k), n) ==> n <= r,
{
    let t = text.as_bytes();
    let ghost tb = encode_utf8(text@);
    let mut best: usize = 0;
    let mut k: usize = 0;
    while k < stops.len()
        invariant
            t@ == tb,
            tb == encode_utf8(text@),
            k <= stops@.len(),
            best == 0 || exists|j: int| 0 <= j < k && #[trigger] partial_stop(tb, stop_bytes(stops@, j), best as int),
            forall|j: int, n: int| 0 <= j < k && #[trigger] partial_stop(tb, stop_bytes(stops@, j), n) ==> n <= best,
        decreases stops@.len() - k,
    {
        let sb = stops[k].as_str().as_bytes();
        assert(sb@ == stop_bytes(stops@, k as int));
        let mut n: usize = 1;
        while n < sb.len()
            invariant
                t@ == tb,
                tb == encode_utf8(text@),
            tb == encode_utf8(text@),
                k < stops@.len(),
                sb@ == stop_bytes(stops@, k as int),
                1 <= n,
                best == 0 || exists|j: int| 0 <= j <= k && #[trigger] partial_stop(tb, stop_bytes(stops@, j), best as int),
                forall|j: int, m: int| 0 <= j < k && #[trigger] partial_stop(tb, stop_bytes(stops@, j), m) ==> m <= best,
                forall|m: int| 1 <= m < n && partial_stop(tb, stop_bytes(stops@, k as int), m) ==> m <= best,
            decreases sb@.len() - n,
        {
            if bytes_end_with(t, sb, n) && n > best {
                best = n;
                assert(partial_stop(tb, stop_bytes(stops@, k as int), best as int));
            }
            n = n + 1;
        }
        k = k + 1;
    }
    best
}

/// The default stop strings as owned values, for sampling.
pub fn default_stop_strings() -> (stops: Vec<String>)
    ensures
        stops@.len() == 3,
        stops@[0]@ == STOP_STRINGS[0]@,
        stops@[1]@ == STOP_STRINGS[1]@,
        stops@[2]@ == STOP_STRINGS[2]@,
{
    let mut stops: Vec<String> = Vec::with_capacity(3);
    stops.push(owned(STOP_STRINGS[0]));
    stops.push(owned(STOP_STRINGS[1]));
    stops.push(owned(STOP_STRINGS[2]));
    stops
}

} // verus!
