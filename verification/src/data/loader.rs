//! The corpus of raw text: which files belong to it and which documents each
//! file holds.

use vstd::prelude::*;

use crate::text::{chars_of, ends_with, trim, trim_ws, string_of};
use crate::updater::{split_char, split_on_char};

verus! {

/// The extension of the last component of a Unix path (`Path::extension`):
/// what follows the last `.` of the file name, unless the name has no `.`
/// or only a leading one.
pub open spec fn extension(path: Seq<char>) -> Option<Seq<char>> {
    let name = path.skip(last_index_end(path, '/'));
    let d = last_index_end(name, '.');
    if d <= 1 {
        None
    } else {
        Some(name.skip(d))
    }
}

/// One past the last occurrence of `c` in `s` (0 if there is none).
pub open spec fn last_index_end(s: Seq<char>, c: char) -> int
    decreases s.len(),
{
    if s.len() == 0 {
        0
    } else if s.last() == c {
        s.len() as int
    } else {
        last_index_end(s.drop_last(), c)
    }
}

proof fn lemma_last_index_end_bounds(s: Seq<char>, c: char)
    ensures
        0 <= last_index_end(s, c) <= s.len(),
        last_index_end(s, c) > 0 ==> s[last_index_end(s, c) - 1] == c,
        forall|i: int| last_index_end(s, c) <= i < s.len() ==> s[i] != c,
    decreases s.len(),
{
    if s.len() > 0 && s.last() != c {
        lemma_last_index_end_bounds(s.drop_last(), c);
        assert forall|i: int| last_index_end(s, c) <= i < s.len() implies s[i] != c by {
            if i < s.len() - 1 {
                assert(s.drop_last()[i] == s[i]);
            }
        }
    }
}

fn last_index_end_exec(s: &Vec<char>, from: usize, c: char) -> (r: usize)
    requires
        from <= s@.len(),
    ensures
        r as int == from + last_index_end(s@.skip(from as int), c),
{
    let mut j: usize = s.len();
    let ghost t = s@.skip(from as int);
    assert(t.take(t.len() as int) =~= t);
    while j > from && s[j - 1] != c
        invariant
            from <= j <= s@.len(),
            t == s@.skip(from as int),
            last_index_end(t.take(j - from), c) == last_index_end(t, c),
        decreases j,
    {
        assert(t.take(j - from - 1) =~= t.take(j - from).drop_last());
        j = j - 1;
    }
    proof {
        if j > from {
            assert(t.take(j - from).last() == s@[j - 1]);
        }
        assert(last_index_end(t.take(j - from), c) == j - from);
    }
    j
}

/// Whether the file at `path` is part of a text corpus: `.txt` or `.jsonl`.
pub open spec fn is_corpus_file(path: Seq<char>) -> bool {
    extension(path) == Some("txt"@) || extension(path) == Some("jsonl"@)
}

/// The extension of `path`, if it has one.
pub fn path_extension(path: &str) -> (r: Option<String>)
    ensures
        match r {
            Some(e) => extension(path@) == Some(e@),
            None => extension(path@) is None,
        },
{
    let s = chars_of(path);
    assert(s@.skip(0) =~= s@);
    let slash = last_index_end_exec(&s, 0, '/');
    proof {
        lemma_last_index_end_bounds(s@, '/');
    }
    let dot = last_index_end_exec(&s, slash, '.');
    let ghost name = s@.skip(slash as int);
    proof {
        lemma_last_index_end_bounds(s@, '/');
        lemma_last_index_end_bounds(name, '.');
    }
    if dot - slash <= 1 {
        return None;
    }
    let mut e: Vec<char> = Vec::new();
    let mut i = dot;
    while i < s.len()
        invariant
            dot <= i <= s@.len(),
            e@ == s@.subrange(dot as int, i as int),
        decreases s@.len() - i,
    {
        e.push(s[i]);
        i = i + 1;
        assert(e@ =~= s@.subrange(dot as int, i as int));
    }
    assert(name.skip(dot - slash) =~= e@);
    Some(string_of(&e))
}

/// Loader of the documents of a text corpus.
pub struct TextLoader {
    files: Vec<String>,
    max_seq_len: usize,
}

impl TextLoader {
    /// A loader over `files`.
    pub fn new(files: Vec<String>, max_seq_len: usize) -> (l: Self)
        ensures
            l.files() == files@,
            l.max_seq_len() == max_seq_len,
    {
        TextLoader { files, max_seq_len }
    }

    /// The files, as given.
    pub closed spec fn files(&self) -> Seq<String> {
        self.files@
    }

    /// The longest sequence the loader is meant for.
    pub closed spec fn max_seq_len(&self) -> usize {
        self.max_seq_len
    }

    /// Number of files.
    pub fn num_files(&self) -> (n: usize)
        ensures
            n == self.files().len(),
    {
        self.files.len()
    }

    /// The files, in order.
    pub fn file_list(&self) -> (f: &Vec<String>)
        ensures
            f@ == self.files(),
    {
        &self.files
    }

    /// A loader over the corpus files among `entries`, the files found by
    /// walking a directory: those ending in `.txt` or `.jsonl`, in order.
    pub fn from_dir(entries: Vec<String>, max_seq_len: usize) -> (l: Self)
        ensures
            l.files().map_values(|f: String| f@) == entries@.map_values(|f: String| f@).filter(
                |p: Seq<char>| is_corpus_file(p),
            ),
            l.max_seq_len() == max_seq_len,
    {
        let mut files: Vec<String> = Vec::new();
        let ghost f = |p: Seq<char>| is_corpus_file(p);
        let ghost v = |x: String| x@;
        let mut i: usize = 0;
        assert(entries@.map_values(v).take(0) =~= Seq::<Seq<char>>::empty());
        while i < entries.len()
            invariant
                i <= entries@.len(),
                f == (|p: Seq<char>| is_corpus_file(p)),
                v == (|x: String| x@),
                files@.map_values(v) == entries@.map_values(v).take(i as int).filter(f),
            decreases entries@.len() - i,
        {
            let e = &entries[i];
            let ext = path_extension(e.as_str());
            let keep = match &ext {
                Some(x) => crate::text::str_eq(x.as_str(), "txt") || crate::text::str_eq(x.as_str(), "jsonl"),
                None => false,
            };
            let ghost before = files@.map_values(v);
            proof {
                let t = entries@.map_values(v).take(i as int + 1);
                assert(t.drop_last() =~= entries@.map_values(v).take(i as int));
                assert(t.last() == e@);
                reveal(Seq::filter);
                assert(t.filter(f) == (if f(e@) {
                    t.drop_last().filter(f).push(e@)
                } else {
                    t.drop_last().filter(f)
                }));
            }
            if keep {
                files.push(e.clone());
                assert(files@.map_values(v) =~= before.push(e@));
            }
            i = i + 1;
        }
        assert(entries@.map_values(v).take(entries@.len() as int) =~= entries@.map_values(v));
        TextLoader { files, max_seq_len }
    }
}

/// What `serde_json` finds as the string field `"text"` of the JSON object
/// `line` (none when `line` is no JSON object, or its `text` no string).
pub uninterp spec fn json_text_field(line: Seq<char>) -> Option<Seq<char>>;

/// Parses `line` as JSON (`serde_json::from_str::<Value>`) and takes its
/// `"text"` string, if any.
#[verifier::external_body]
pub(crate) fn text_field(line: &str) -> (r: Option<String>)
    ensures
        match r {
            Some(t) => json_text_field(line@) == Some(t@),
            None => json_text_field(line@) is None,
        },
{
    match serde_json::from_str::<serde_json::Value>(line) {
        Ok(v) => match v.get("text") {
            Some(t) => match t.as_str() {
                Some(s) => Some(s.to_owned()),
                None => None,
            },
            None => None,
        },
        Err(_) => None,
    }
}

/// The document a non-empty JSONL line stands for: its `"text"` field, or
/// the whole line.
pub open spec fn line_document(line: Seq<char>) -> Seq<char> {
    match json_text_field(line) {
        Some(t) => t,
        None => line,
    }
}

/// The documents of a JSONL file: one per non-blank line, taken from the
/// trimmed line.
pub open spec fn jsonl_documents(pieces: Seq<Seq<char>>) -> Seq<Seq<char>>
    decreases pieces.len(),
{
    if pieces.len() == 0 {
        Seq::empty()
    } else {
        let rest = jsonl_documents(pieces.drop_last());
        let t = trim(pieces.last());
        if t.len() == 0 {
            rest
        } else {
            rest.push(line_document(t))
        }
    }
}

/// The documents of a corpus file with `content`: for `.jsonl`, one per
/// non-blank line (its `"text"` field when it has one); otherwise the whole
/// file, unless it is blank.
pub open spec fn file_documents(path: Seq<char>, content: Seq<char>) -> Seq<Seq<char>> {
    if extension(path) == Some("jsonl"@) {
        jsonl_documents(split_char(content, '\n'))
    } else if trim(content).len() == 0 {
        Seq::empty()
    } else {
        seq![content]
    }
}

/// The documents of the corpus file `path`, whose content is `content`.
pub fn documents_of(path: &str, content: &str) -> (r: Vec<String>)
    ensures
        r@.map_values(|d: String| d@) == file_documents(path@, content@),
{
    let ext = path_extension(path);
    let is_jsonl = match &ext {
        Some(x) => crate::text::str_eq(x.as_str(), "jsonl"),
        None => false,
    };
    let mut docs: Vec<String> = Vec::new();
    if !is_jsonl {
        let t = trim_ws(content);
        if t.as_str().unicode_len() > 0 {
            docs.push(content.to_owned());
            assert(docs@.map_values(|d: String| d@) =~= seq![content@]);
        } else {
            assert(docs@.map_values(|d: String| d@) =~= Seq::<Seq<char>>::empty());
        }
        return docs;
    }
    let pieces = split_on_char(content, '\n');
    let ghost ps = pieces@.map_values(|p: Vec<char>| p@);
    let mut i: usize = 0;
    assert(ps.take(0) =~= Seq::<Seq<char>>::empty());
    while i < pieces.len()
        invariant
            i <= pieces@.len(),
            ps == pieces@.map_values(|p: Vec<char>| p@),
            ps == split_char(content@, '\n'),
            docs@.map_values(|d: String| d@) == jsonl_documents(ps.take(i as int)),
        decreases pieces@.len() - i,
    {
        let line = string_of(&pieces[i]);
        let t = trim_ws(line.as_str());
        let ghost before = docs@.map_values(|d: String| d@);
        proof {
            let s = ps.take(i as int + 1);
            assert(s.drop_last() =~= ps.take(i as int));
            assert(s.last() == pieces@[i as int]@);
        }
        if t.as_str().unicode_len() > 0 {
            match text_field(t.as_str()) {
                Some(x) => docs.push(x),
                None => docs.push(t),
            }
            assert(docs@.map_values(|d: String| d@) =~= before.push(line_document(trim(line@))));
        }
        i = i + 1;
    }
    assert(ps.take(ps.len() as int) =~= ps);
    docs
}

} // verus!
