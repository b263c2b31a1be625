//! The BPE tokenizer: a loaded `tokenizers` vocabulary behind the calls the
//! library makes on it.

use vstd::prelude::*;

use crate::data::loader::{json_text_field, text_field};
use crate::text::{
    char_utf8_len, chars_of, lemma_utf8_offset_increasing, lemma_utf8_offset_step, trim, trim_ws, utf8_len,
};

verus! {

/// A tokenizer of the `tokenizers` crate: vocabulary, merges and the rules
/// around them.
#[verifier::external_type_specification]
#[verifier::external_body]
pub struct ExTokenizer(tokenizers::Tokenizer);

pub const BOS_TOKEN: &'static str = "<s>";
pub const EOS_TOKEN: &'static str = "</s>";
pub const PAD_TOKEN: &'static str = "<pad>";
pub const UNK_TOKEN: &'static str = "<unk>";

/// `Tokenizer::encode` without special tokens, then the encoding's ids and
/// byte offsets, or the error's text. A loaded BPE model may use dropout,
/// which draws random numbers, so two calls on the same text may differ:
/// nothing is claimed of what comes back.
#[verifier::external_body]
fn encode_raw(tok: &tokenizers::Tokenizer, text: &str) -> (r: Result<(Vec<u32>, Vec<(usize, usize)>), String>) {
    match tok.encode(text, false) {
        Ok(enc) => Ok((enc.get_ids().to_vec(), enc.get_offsets().to_vec())),
        Err(e) => Err(e.to_string()),
    }
}

/// What `Tokenizer::decode` gives for `ids`, special tokens skipped: the
/// text, or `None` when it fails. It draws no random numbers: a function
/// of the tokenizer and the ids.
pub uninterp spec fn tokenizer_decoded(tok: tokenizers::Tokenizer, ids: Seq<u32>) -> Option<Seq<char>>;

/// What `Tokenizer::get_vocab_size` gives with the added tokens counted: a
/// function of the tokenizer.
pub uninterp spec fn tokenizer_vocab_size(tok: tokenizers::Tokenizer) -> usize;

/// `Tokenizer::decode`, skipping special tokens, or the error's text; the
/// text is the named result `tokenizer_decoded`.
#[verifier::external_body]
fn decode_raw(tok: &tokenizers::Tokenizer, ids: &[u32]) -> (r: Result<String, String>)
    ensures
        match r {
            Ok(s) => tokenizer_decoded(*tok, ids@) == Some(s@),
            Err(_) => tokenizer_decoded(*tok, ids@) is None,
        },
{
    match tok.decode(ids, true) {
        Ok(s) => Ok(s),
        Err(e) => Err(e.to_string()),
    }
}

/// `Tokenizer::get_vocab_size` with the added tokens counted; the size is
/// the named result `tokenizer_vocab_size`.
#[verifier::external_body]
fn vocab_size_raw(tok: &tokenizers::Tokenizer) -> (n: usize)
    ensures
        n == tokenizer_vocab_size(*tok),
{
    tok.get_vocab_size(true)
}

/// BPE tokenizer wrapper around the HuggingFace `tokenizers` crate.
pub struct QuarkTokenizer {
    inner: tokenizers::Tokenizer,
}

impl QuarkTokenizer {
    /// The loaded tokenizer behind this one.
    pub closed spec fn tokenizer(&self) -> tokenizers::Tokenizer {
        self.inner
    }

    /// Wraps a loaded tokenizer.
    pub fn from_tokenizer(inner: tokenizers::Tokenizer) -> (t: Self)
        ensures
            t.tokenizer() == inner,
    {
        QuarkTokenizer { inner }
    }

    /// Encodes `text` into token ids.
    pub fn encode(&self, text: &str) -> (r: Result<Vec<u32>, String>)
        ensures
            r matches Err(m) ==> exists|e: Seq<char>| m@ == "encode error: "@ + e,
    {
        match encode_raw(&self.inner, text) {
            Ok((ids, _)) => Ok(ids),
            Err(e) => {
                let mut msg = "encode error: ".to_owned();
                msg.append(e.as_str());
                Err(msg)
            },
        }
    }

    /// Encodes `text` into token ids with the byte range of the text each
    /// one came from.
    pub fn encode_with_offsets(&self, text: &str) -> (r: Result<(Vec<u32>, Vec<(usize, usize)>), String>)
        ensures
            r matches Err(m) ==> exists|e: Seq<char>| m@ == "encode error: "@ + e,
    {
        match encode_raw(&self.inner, text) {
            Ok(pair) => Ok(pair),
            Err(e) => {
                let mut msg = "encode error: ".to_owned();
                msg.append(e.as_str());
                Err(msg)
            },
        }
    }

    /// Decodes token ids back to text.
    pub fn decode(&self, ids: &[u32]) -> (r: Result<String, String>)
        ensures
            match r {
                Ok(s) => tokenizer_decoded(self.tokenizer(), ids@) == Some(s@),
                Err(m) => tokenizer_decoded(self.tokenizer(), ids@) is None && exists|e: Seq<char>|
                    m@ == "decode error: "@ + e,
            },
    {
        match decode_raw(&self.inner, ids) {
            Ok(s) => Ok(s),
            Err(e) => {
                let mut msg = "decode error: ".to_owned();
                msg.append(e.as_str());
                Err(msg)
            },
        }
    }

    /// Size of the vocabulary, added tokens included.
    pub fn vocab_size(&self) -> (n: usize)
        ensures
            n == tokenizer_vocab_size(self.tokenizer()),
    {
        vocab_size_raw(&self.inner)
    }
}


/// The text a corpus line gives the tokenizer's training sample: for a
/// `.jsonl` file the line's `"text"` field when it has one, else the line;
/// trimmed either way (blank: nothing).
pub open spec fn sample_text(raw: Seq<char>, jsonl: bool) -> Seq<char> {
    trim(
        if jsonl {
            match json_text_field(raw) {
                Some(t) => t,
                None => raw,
            }
        } else {
            raw
        },
    )
}

/// The number of bytes of `s` in UTF-8, known to be at most `bound`.
fn utf8_size(s: &str, bound: u64) -> (n: u64)
    requires
        utf8_len(s@) <= bound,
    ensures
        n == utf8_len(s@),
{
    let cs = chars_of(s);
    let mut n: u64 = 0;
    let mut i: usize = 0;
    while i < cs.len()
        invariant
            i <= cs@.len(),
            cs@ == s@,
            n == utf8_len(s@.take(i as int)),
            utf8_len(s@) <= bound,
        decreases cs@.len() - i,
    {
        proof {
            lemma_utf8_offset_step(s@, i as int);
            lemma_utf8_offset_increasing(s@, i as int + 1, s@.len() as int);
        }
        n = n + char_utf8_len(cs[i]) as u64;
        i = i + 1;
    }
    assert(s@.take(i as int) =~= s@);
    n
}

/// How much of the corpus the training sample holds so far.
#[derive(Debug, Clone, Copy)]
pub struct SampleTally {
    /// Bytes written, a newline after each text included.
    pub written_bytes: u64,
    /// Texts written.
    pub docs: u64,
    /// Whether the size cap was reached (sampling stops there).
    pub hit_cap: bool,
}

impl SampleTally {
    /// Nothing sampled yet.
    pub fn new() -> (t: Self)
        ensures
            t.written_bytes == 0 && t.docs == 0 && !t.hit_cap,
    {
        SampleTally { written_bytes: 0, docs: 0, hit_cap: false }
    }
}

/// Takes one line of a corpus file into the training sample: returns the
/// text to write (followed by a newline), if the line gives one, and counts
/// it; the cap `max_bytes` (0: none) is reached once the bytes written come
/// to it.
/// The number of bytes of `s` in UTF-8 if it is at most `limit`, else
/// `None`.
fn utf8_size_within(s: &str, limit: u64) -> (r: Option<u64>)
    ensures
        match r {
            Some(n) => n == utf8_len(s@) && n <= limit,
            None => utf8_len(s@) > limit,
        },
{
    let cs = chars_of(s);
    let mut n: u64 = 0;
    let mut i: usize = 0;
    while i < cs.len()
        invariant
            i <= cs@.len(),
            cs@ == s@,
            n == utf8_len(s@.take(i as int)),
            n <= limit,
        decreases cs@.len() - i,
    {
        proof {
            lemma_utf8_offset_step(s@, i as int);
            lemma_utf8_offset_increasing(s@, i as int + 1, s@.len() as int);
        }
        let c = char_utf8_len(cs[i]) as u64;
        if c > limit - n {
            return None;
        }
        n = n + c;
        i = i + 1;
    }
    assert(s@.take(i as int) =~= s@);
    Some(n)
}

/// The text a corpus line gives the training sample (see `sample_text`).
fn sample_text_of(raw: &str, jsonl: bool) -> (t: String)
    ensures
        t@ == sample_text(raw@, jsonl),
{
    if jsonl {
        match text_field(raw) {
            Some(t) => trim_ws(t.as_str()),
            None => trim_ws(raw),
        }
    } else {
        trim_ws(raw)
    }
}

/// `sample_line` where the counts allow it: `None`, with the tally
/// unchanged, when the text the line gives would take the bytes written or
/// the texts written past `u64::MAX`; otherwise what `sample_line` does.
pub fn try_sample_line(tally: &mut SampleTally, raw: &str, jsonl: bool, max_bytes: u64) -> (r: Option<Option<String>>)
    ensures
        r is None <==> (old(tally).docs == u64::MAX || old(tally).written_bytes + utf8_len(sample_text(raw@, jsonl))
            + 1 > u64::MAX),
        r is None ==> *final(tally) == *old(tally),
        r matches Some(x) ==> {
            &&& sample_text(raw@, jsonl).len() == 0 ==> x is None && *final(tally) == *old(tally)
            &&& sample_text(raw@, jsonl).len() > 0 ==> {
                &&& x matches Some(t) && t@ == sample_text(raw@, jsonl)
                &&& final(tally).written_bytes == old(tally).written_bytes + utf8_len(sample_text(raw@, jsonl))
                    + 1
                &&& final(tally).docs == old(tally).docs + 1
                &&& final(tally).hit_cap == (old(tally).hit_cap || (max_bytes > 0 && final(tally).written_bytes
                    >= max_bytes))
            }
        },
{
    if tally.docs == u64::MAX || tally.written_bytes == u64::MAX {
        return None;
    }
    let text = sample_text_of(raw, jsonl);
    match utf8_size_within(text.as_str(), u64::MAX - 1 - tally.written_bytes) {
        None => None,
        Some(_) => Some(sample_line(tally, raw, jsonl, max_bytes)),
    }
}

pub fn sample_line(tally: &mut SampleTally, raw: &str, jsonl: bool, max_bytes: u64) -> (r: Option<String>)
    requires
        old(tally).written_bytes + utf8_len(sample_text(raw@, jsonl)) + 1 <= u64::MAX,
        old(tally).docs < u64::MAX,
    ensures
        sample_text(raw@, jsonl).len() == 0 ==> r is None && *final(tally) == *old(tally),
        sample_text(raw@, jsonl).len() > 0 ==> {
            &&& r matches Some(t) && t@ == sample_text(raw@, jsonl)
            &&& final(tally).written_bytes == old(tally).written_bytes + utf8_len(sample_text(raw@, jsonl)) + 1
            &&& final(tally).docs == old(tally).docs + 1
            &&& final(tally).hit_cap == (old(tally).hit_cap || (max_bytes > 0 && final(tally).written_bytes
                >= max_bytes))
        },
{
    let text = sample_text_of(raw, jsonl);
    if text.as_str().unicode_len() == 0 {
        return None;
    }
    let n = utf8_size(text.as_str(), u64::MAX - 1 - tally.written_bytes);
    tally.written_bytes = tally.written_bytes + n + 1;
    tally.docs = tally.docs + 1;
    if max_bytes > 0 && tally.written_bytes >= max_bytes {
        tally.hit_cap = true;
    }
    Some(text)
}

} // verus!
