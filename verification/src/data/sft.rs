//! Chat / tool-use fine-tuning data (supervised fine-tuning, "SFT").
//!
//! Each conversation is rendered with the shared chat template
//! (`crate::chat`) and the model is trained only on the assistant turns.

use rand::seq::SliceRandom;
use rand::SeedableRng;
use vstd::prelude::*;
use crate::chat::{render_training_segments, segments_text, segments_view, training_segments, ChatMessage};
use crate::data::batch::{batch_rows, mask_row, mask_vec, max_len, DataBatch};
use crate::seqs::{fit, fit_vec, rows};
use crate::text::{lemma_encode_utf8_concat, utf8_len};
use crate::tokenizer::QuarkTokenizer;
use crate::tokens::BOS_ID;

verus! {

/// A tokenized conversation. `trainable[i]` says whether token `i` is a
/// training target (i.e. part of an assistant turn).
#[derive(Debug, Clone, PartialEq, Eq)]
pub struct SftExample {
    pub ids: Vec<u32>,
    pub trainable: Vec<bool>,
}

/// Whether every example flags each of its tokens after the first
/// (the ones that can be targets).
pub open spec fn flags_cover(examples: Seq<SftExample>) -> bool {
    forall|k: int|
        0 <= k < examples.len() ==> (#[trigger] examples[k]).ids@.len() <= 1
            || examples[k].trainable@.len() >= examples[k].ids@.len()
}

/// The token ids of each example.
pub open spec fn example_ids(examples: Seq<SftExample>) -> Seq<Seq<u32>> {
    examples.map_values(|e: SftExample| e.ids@)
}

/// Labels of one example padded to `n`: position `j` holds the next token
/// where that token is trainable, and `pad` elsewhere.
pub open spec fn sft_label_row(ids: Seq<u32>, trainable: Seq<bool>, n: nat, pad: u32) -> Seq<u32> {
    Seq::new(n, |j: int| if j + 1 < ids.len() && trainable[j + 1] { ids[j + 1] } else { pad })
}

fn sft_label_vec(ids: &Vec<u32>, trainable: &Vec<bool>, n: usize, pad: u32) -> (r: Vec<u32>)
    requires
        ids@.len() <= 1 || trainable@.len() >= ids@.len(),
    ensures
        r@ == sft_label_row(ids@, trainable@, n as nat, pad),
{
    let mut r: Vec<u32> = Vec::with_capacity(n);
    let mut j: usize = 0;
    while j < n
        invariant
            j <= n,
            ids@.len() <= 1 || trainable@.len() >= ids@.len(),
            r@ == sft_label_row(ids@, trainable@, n as nat, pad).take(j as int),
        decreases n - j,
    {
        if j < ids.len() && j + 1 < ids.len() && trainable[j + 1] {
            r.push(ids[j + 1]);
        } else {
            r.push(pad);
        }
        j = j + 1;
        assert(r@ =~= sft_label_row(ids@, trainable@, n as nat, pad).take(j as int));
    }
    assert(r@ =~= sft_label_row(ids@, trainable@, n as nat, pad));
    r
}

/// The rows of the batch of `examples`: every example padded to the longest
/// one, labelled with its next trainable token (`pad` elsewhere), and masked
/// over its real tokens.
pub open spec fn sft_rows(examples: Seq<SftExample>, pad: u32) -> (Seq<Seq<u32>>, Seq<Seq<u32>>, Seq<Seq<u8>>) {
    let ids = example_ids(examples);
    let n = max_len(ids);
    (
        ids.map_values(|s: Seq<u32>| fit(s, n, pad)),
        examples.map_values(|e: SftExample| sft_label_row(e.ids@, e.trainable@, n, pad)),
        ids.map_values(|s: Seq<u32>| mask_row(s.len(), n)),
    )
}

/// Collate examples into a batch, padding to the longest. Labels are the next
/// token where it is trainable and `pad_id` (ignored by the loss) elsewhere.
pub fn collate_sft(examples: &[SftExample], pad_id: u32) -> (batch: DataBatch)
    requires
        flags_cover(examples@),
    ensures
        batch_rows(batch) == sft_rows(examples@, pad_id),
{
    let ghost ids = example_ids(examples@);
    let mut max: usize = 0;
    let mut i: usize = 0;
    while i < examples.len()
        invariant
            i <= examples@.len(),
            ids == example_ids(examples@),
            max == max_len(ids.take(i as int)),
        decreases examples@.len() - i,
    {
        proof {
            let t = ids.take(i as int + 1);
            assert(t.drop_last() =~= ids.take(i as int));
            assert(t.last() == examples@[i as int].ids@);
        }
        if examples[i].ids.len() > max {
            max = examples[i].ids.len();
        }
        i = i + 1;
    }
    assert(ids.take(i as int) =~= ids);
    let mut input_ids: Vec<Vec<u32>> = Vec::with_capacity(examples.len());
    let mut labels: Vec<Vec<u32>> = Vec::with_capacity(examples.len());
    let mut attention_mask: Vec<Vec<u8>> = Vec::with_capacity(examples.len());
    let mut i: usize = 0;
    while i < examples.len()
        invariant
            i <= examples@.len(),
            flags_cover(examples@),
            ids == example_ids(examples@),
            max == max_len(ids),
            input_ids@.len() == i,
            labels@.len() == i,
            attention_mask@.len() == i,
            forall|k: int| 0 <= k < i ==> #[trigger] input_ids@[k]@ == fit(ids[k], max as nat, pad_id),
            forall|k: int|
                0 <= k < i ==> #[trigger] labels@[k]@ == sft_label_row(
                    examples@[k].ids@,
                    examples@[k].trainable@,
                    max as nat,
                    pad_id,
                ),
            forall|k: int| 0 <= k < i ==> #[trigger] attention_mask@[k]@ == mask_row(ids[k].len(), max as nat),
        decreases examples@.len() - i,
    {
        let ex = &examples[i];
        assert(examples@[i as int] == *ex);
        input_ids.push(fit_vec(&ex.ids, max, pad_id));
        labels.push(sft_label_vec(&ex.ids, &ex.trainable, max, pad_id));
        attention_mask.push(mask_vec(ex.ids.len(), max));
        i = i + 1;
    }
    assert(rows(input_ids@) =~= ids.map_values(|s: Seq<u32>| fit(s, max as nat, pad_id)));
    assert(rows(attention_mask@) =~= ids.map_values(|s: Seq<u32>| mask_row(s.len(), max as nat)));
    assert(rows(labels@) =~= examples@.map_values(
        |e: SftExample| sft_label_row(e.ids@, e.trainable@, max as nat, pad_id),
    ));
    let batch = DataBatch { input_ids, labels, attention_mask };
    assert(batch_rows(batch) == sft_rows(examples@, pad_id));
    batch
}

} // verus!

verus! {

/// Byte ranges, in the concatenated transcript, of the trainable segments.
pub open spec fn trainable_ranges(segs: Seq<(Seq<char>, bool)>) -> Seq<(int, int)>
    decreases segs.len(),
{
    if segs.len() == 0 {
        Seq::empty()
    } else {
        let r = trainable_ranges(segs.drop_last());
        let start = utf8_len(segments_text(segs.drop_last())) as int;
        if segs.last().1 {
            r.push((start, start + utf8_len(segs.last().0)))
        } else {
            r
        }
    }
}

/// Whether the byte range `o` of a token overlaps one of `ranges`.
pub open spec fn hits(o: (usize, usize), ranges: Seq<(int, int)>) -> bool {
    exists|k: int| 0 <= k < ranges.len() && o.0 < (#[trigger] ranges[k]).1 && o.1 > ranges[k].0
}

/// For each of the first `n` tokens, whether its byte range overlaps one of
/// `ranges`.
pub open spec fn hit_flags(offsets: Seq<(usize, usize)>, ranges: Seq<(int, int)>, n: nat) -> Seq<bool>
    decreases n,
{
    if n == 0 {
        Seq::empty()
    } else {
        hit_flags(offsets, ranges, (n - 1) as nat).push(hits(offsets[n - 1], ranges))
    }
}

proof fn lemma_hit_flags(offsets: Seq<(usize, usize)>, ranges: Seq<(int, int)>, n: nat)
    ensures
        hit_flags(offsets, ranges, n).len() == n,
        forall|i: int| 0 <= i < n ==> #[trigger] hit_flags(offsets, ranges, n)[i] == hits(offsets[i], ranges),
    decreases n,
{
    if n > 0 {
        lemma_hit_flags(offsets, ranges, (n - 1) as nat);
    }
}

/// Whether some token after the first is trainable.
pub open spec fn trains_after_first(flags: Seq<bool>) -> bool {
    exists|j: int| 1 <= j < flags.len() && #[trigger] flags[j]
}

/// The example of a transcript whose trainable byte ranges are `ranges` and
/// whose encoding has token `ids` at byte `offsets`: a leading BOS, then
/// each token flagged trainable when it overlaps a trainable range, cut to
/// `max_len` tokens; `None` when no token after the first is trainable.
pub open spec fn example_of(
    ranges: Seq<(int, int)>,
    ids: Seq<u32>,
    offsets: Seq<(usize, usize)>,
    max_len: nat,
) -> Option<(Seq<u32>, Seq<bool>)> {
    let n = if ids.len() < offsets.len() { ids.len() } else { offsets.len() };
    let m = if max_len < n + 1 { max_len } else { n + 1 };
    let all_ids = seq![BOS_ID] + ids.take(n as int);
    let all_flags = seq![false] + hit_flags(offsets, ranges, n);
    let fi = all_ids.take(m as int);
    let ff = all_flags.take(m as int);
    if trains_after_first(ff) {
        Some((fi, ff))
    } else {
        None
    }
}

/// An optional example as plain sequences.
pub open spec fn example_view(o: Option<SftExample>) -> Option<(Seq<u32>, Seq<bool>)> {
    match o {
        Some(e) => Some((e.ids@, e.trainable@)),
        None => None,
    }
}

/// Ranges as integers.
pub open spec fn ranges_view(v: Seq<(usize, usize)>) -> Seq<(int, int)> {
    v.map_values(|r: (usize, usize)| (r.0 as int, r.1 as int))
}

fn hits_exec(o: (usize, usize), ranges: &Vec<(usize, usize)>) -> (r: bool)
    ensures
        r == hits(o, ranges_view(ranges@)),
{
    let ghost rv = ranges_view(ranges@);
    let mut k: usize = 0;
    while k < ranges.len()
        invariant
            k <= ranges@.len(),
            rv == ranges_view(ranges@),
            forall|t: int| 0 <= t < k ==> !(o.0 < (#[trigger] rv[t]).1 && o.1 > rv[t].0),
        decreases ranges@.len() - k,
    {
        let (a, b) = ranges[k];
        assert(rv[k as int] == (a as int, b as int));
        if o.0 < b && o.1 > a {
            return true;
        }
        k = k + 1;
    }
    false
}

/// Builds the training example from a transcript's trainable byte ranges
/// and its encoding (ids with byte offsets).
pub fn example_from_encoding(
    ranges: &Vec<(usize, usize)>,
    ids: &Vec<u32>,
    offsets: &Vec<(usize, usize)>,
    max_len: usize,
) -> (r: Option<SftExample>)
    ensures
        example_view(r) == example_of(ranges_view(ranges@), ids@, offsets@, max_len as nat),
        r matches Some(e) ==> e.trainable@.len() == e.ids@.len(),
{
    let n = if ids.len() < offsets.len() {
        ids.len()
    } else {
        offsets.len()
    };
    let m: usize = if max_len <= n {
        max_len
    } else {
        n + 1
    };
    let ghost rv = ranges_view(ranges@);
    let ghost all_ids = seq![BOS_ID] + ids@.take(n as int);
    let ghost all_flags = seq![false] + hit_flags(offsets@, rv, n as nat);
    proof {
        lemma_hit_flags(offsets@, rv, n as nat);
    }
    let mut out_ids: Vec<u32> = Vec::new();
    let mut flags: Vec<bool> = Vec::new();
    let mut any = false;
    if m > 0 {
        out_ids.push(BOS_ID);
        flags.push(false);
    }
    let mut k: usize = 1;
    while k < m
        invariant
            1 <= k,
            m <= n + 1,
            m > 0 ==> k <= m,
            m == 0 ==> out_ids@.len() == 0 && flags@.len() == 0,
            n <= ids@.len(),
            n <= offsets@.len(),
            rv == ranges_view(ranges@),
            all_ids == seq![BOS_ID] + ids@.take(n as int),
            all_flags == seq![false] + hit_flags(offsets@, rv, n as nat),
            all_flags.len() == n + 1,
            forall|i: int| 1 <= i <= n ==> #[trigger] all_flags[i] == hits(offsets@[i - 1], rv),
            m > 0 ==> out_ids@ == all_ids.take(k as int),
            m > 0 ==> flags@ == all_flags.take(k as int),
            any == exists|j: int| 1 <= j < flags@.len() && #[trigger] flags@[j],
        decreases m - k,
    {
        let h = hits_exec(offsets[k - 1], ranges);
        let ghost old_flags = flags@;
        out_ids.push(ids[k - 1]);
        flags.push(h);
        proof {
            assert(out_ids@ =~= all_ids.take(k as int + 1));
            assert(flags@ =~= all_flags.take(k as int + 1));
            assert(flags@ == old_flags.push(h));
            if h {
                assert(flags@[k as int]);
            }
            if any {
                let j = choose|j: int| 1 <= j < old_flags.len() && #[trigger] old_flags[j];
                assert(flags@[j]);
            }
            if !any && !h {
                assert forall|j: int| 1 <= j < flags@.len() implies !#[trigger] flags@[j] by {
                    if j < old_flags.len() {
                        assert(flags@[j] == old_flags[j]);
                    }
                }
            }
        }
        any = any || h;
        k = k + 1;
    }
    let ghost mm = if max_len < n + 1 { max_len as nat } else { (n + 1) as nat };
    assert(mm == m);
    if m == 0 {
        assert(all_flags.take(0) =~= Seq::<bool>::empty());
        return None;
    }
    assert(k == m);
    let ghost ff = all_flags.take(m as int);
    proof {
        let sn = if ids@.len() < offsets@.len() { ids@.len() } else { offsets@.len() };
        let sm = if (max_len as nat) < sn + 1 { max_len as nat } else { sn + 1 };
        assert(sm == m);
        assert(sn == n);
        assert((seq![false] + hit_flags(offsets@, ranges_view(ranges@), sn)).take(sm as int) == ff);
        assert((seq![BOS_ID] + ids@.take(sn as int)).take(sm as int) == out_ids@);
    }
    assert(flags@ == ff);
    assert(out_ids@ == all_ids.take(m as int));
    if any {
        proof {
            let j = choose|j: int| 1 <= j < flags@.len() && #[trigger] flags@[j];
            assert(ff[j]);
            assert(trains_after_first(ff));
            assert(example_of(ranges_view(ranges@), ids@, offsets@, max_len as nat) == Some((out_ids@, flags@)));
        }
        Some(SftExample { ids: out_ids, trainable: flags })
    } else {
        assert(!trains_after_first(ff));
        assert(example_of(ranges_view(ranges@), ids@, offsets@, max_len as nat) is None);
        None
    }
}

/// The transcript of rendered segments and the byte ranges of its
/// trainable ones.
fn transcript_and_ranges(segments: &Vec<(String, bool)>) -> (r: (String, Vec<(usize, usize)>))
    requires
        utf8_len(segments_text(segments_view(segments@))) <= usize::MAX,
    ensures
        r.0@ == segments_text(segments_view(segments@)),
        ranges_view(r.1@) == trainable_ranges(segments_view(segments@)),
{
    let ghost segs = segments_view(segments@);
    let mut text = String::new();
    let mut ranges: Vec<(usize, usize)> = Vec::new();
    let mut i: usize = 0;
    assert(segs.take(0) =~= Seq::<(Seq<char>, bool)>::empty());
    assert(segments_text(segs.take(0)) =~= Seq::<char>::empty());
    while i < segments.len()
        invariant
            i <= segments@.len(),
            segs == segments_view(segments@),
            utf8_len(segments_text(segs)) <= usize::MAX,
            text@ == segments_text(segs.take(i as int)),
            ranges_view(ranges@) == trainable_ranges(segs.take(i as int)),
        decreases segments@.len() - i,
    {
        let ghost t = segs.take(i as int + 1);
        proof {
            assert(t.drop_last() =~= segs.take(i as int));
            assert(t.last() == (segments@[i as int].0@, segments@[i as int].1));
            assert(t.map_values(|p: (Seq<char>, bool)| p.0) =~= segs.take(i as int).map_values(
                |p: (Seq<char>, bool)| p.0,
            ).push(segments@[i as int].0@));
            segs.take(i as int).map_values(|p: (Seq<char>, bool)| p.0).lemma_flatten_push(
                segments@[i as int].0@,
            );
            lemma_text_prefix_len(segs, i as int + 1);
            lemma_encode_utf8_concat(text@, segments@[i as int].0@);
        }
        let start = text.as_str().len();
        let seg = &segments[i];
        text.append(seg.0.as_str());
        let end = text.as_str().len();
        if seg.1 {
            ranges.push((start, end));
            assert(ranges_view(ranges@) =~= trainable_ranges(segs.take(i as int)).push(
                (start as int, end as int),
            ));
        }
        i = i + 1;
    }
    assert(segs.take(i as int) =~= segs);
    (text, ranges)
}

proof fn lemma_text_prefix_len(segs: Seq<(Seq<char>, bool)>, k: int)
    requires
        0 <= k <= segs.len(),
    ensures
        utf8_len(segments_text(segs.take(k))) <= utf8_len(segments_text(segs)),
    decreases segs.len() - k,
{
    if k < segs.len() {
        lemma_text_prefix_len(segs, k + 1);
        let t = segs.take(k + 1);
        assert(t.drop_last() =~= segs.take(k));
        assert(t.map_values(|p: (Seq<char>, bool)| p.0) =~= segs.take(k).map_values(
            |p: (Seq<char>, bool)| p.0,
        ).push(segs[k].0));
        segs.take(k).map_values(|p: (Seq<char>, bool)| p.0).lemma_flatten_push(segs[k].0);
        lemma_encode_utf8_concat(segments_text(segs.take(k)), segs[k].0);
    } else {
        assert(segs.take(k) =~= segs);
    }
}

/// Tokenizes one conversation (with a leading BOS), cut to `max_len`
/// tokens: the whole transcript is encoded at once, as inference does, and
/// each token is mapped back to its segment through its byte offsets.
/// `Ok(None)` when no assistant token survives the cut.
pub fn tokenize_conversation(
    tokenizer: &QuarkTokenizer,
    messages: &[ChatMessage],
    max_len: usize,
) -> (r: Result<Option<SftExample>, String>)
    requires
        utf8_len(segments_text(training_segments(messages@))) <= usize::MAX,
    ensures
        r matches Ok(Some(e)) ==> e.trainable@.len() == e.ids@.len(),
        r matches Err(m) ==> exists|e: Seq<char>| m@ == "encode error: "@ + e,
        r matches Ok(o) ==> exists|ids: Seq<u32>, offsets: Seq<(usize, usize)>|
            #[trigger] example_of(trainable_ranges(training_segments(messages@)), ids, offsets, max_len as nat)
                == example_view(o),
{
    let segments = render_training_segments(messages);
    let (text, ranges) = transcript_and_ranges(&segments);
    match tokenizer.encode_with_offsets(text.as_str()) {
        Err(e) => Err(e),
        Ok((ids, offsets)) => {
            let ex = example_from_encoding(&ranges, &ids, &offsets, max_len);
            assert(example_of(trainable_ranges(training_segments(messages@)), ids@, offsets@, max_len as nat) == example_view(ex));
            Ok(ex)
        },
    }
}

/// The order `SliceRandom::shuffle` leaves `n` items in when driven by
/// `StdRng::seed_from_u64(seed)`: position `i` then holds the item that was
/// at `seeded_order(n, seed)[i]`. The swaps it makes depend on the length
/// and the generator alone, and the generator is deterministic for a seed,
/// so the order is a function of `n` and `seed`.
pub uninterp spec fn seeded_order(n: nat, seed: u64) -> Seq<int>;

/// `s` rearranged so that position `i` holds `s[order[i]]`.
pub open spec fn permuted<T>(s: Seq<T>, order: Seq<int>) -> Seq<T> {
    Seq::new(s.len(), |i: int| s[order[i]])
}

/// Shuffles `items` in place (`SliceRandom::shuffle`) with a generator
/// seeded by `seed` (`StdRng::seed_from_u64`): the items are rearranged in
/// the order named `seeded_order`, which is a permutation.
#[verifier::external_body]
fn shuffle_seeded(items: &mut Vec<SftExample>, seed: u64)
    ensures
        final(items)@ == permuted(old(items)@, seeded_order(old(items)@.len(), seed)),
        final(items)@.to_multiset() == old(items)@.to_multiset(),
{
    items.shuffle(&mut rand::rngs::StdRng::seed_from_u64(seed));
}

/// `s` cut into consecutive pieces of `size` elements, the last one
/// possibly shorter.
pub open spec fn chunks_of<T>(s: Seq<T>, size: nat) -> Seq<Seq<T>>
    decreases s.len(),
{
    if s.len() == 0 || size == 0 {
        Seq::empty()
    } else if s.len() <= size {
        seq![s]
    } else {
        seq![s.take(size as int)] + chunks_of(s.skip(size as int), size)
    }
}

/// Chat examples → shuffled fine-tuning batches of `batch_size` (at least 1)
/// examples each, the last one possibly smaller: the examples are put in the
/// order `seeded_order` gives for `seed`, so the same seed gives the same
/// batches. An error when there is no example.
pub fn sft_batches_from(examples: Vec<SftExample>, seed: u64, batch_size: usize, pad_id: u32) -> (r: Result<Vec<DataBatch>, String>)
    requires
        flags_cover(examples@),
    ensures
        examples@.len() == 0 <==> r is Err,
        r matches Ok(batches) ==> batches@.map_values(|b: DataBatch| batch_rows(b)) == chunks_of(
            permuted(examples@, seeded_order(examples@.len(), seed)),
            if batch_size > 0 { batch_size as nat } else { 1 },
        ).map_values(|c: Seq<SftExample>| sft_rows(c, pad_id)),
{
    if examples.len() == 0 {
        return Err("No usable conversations: each needs at least one assistant message".to_owned());
    }
    let mut items = examples;
    shuffle_seeded(&mut items, seed);
    let ghost p = items@;
    proof {
        lemma_flags_cover_permutation(examples@, p);
    }
    let size: usize = if batch_size > 0 {
        batch_size
    } else {
        1
    };
    let ghost f = |c: Seq<SftExample>| sft_rows(c, pad_id);
    let ghost g = |b: DataBatch| batch_rows(b);
    let mut batches: Vec<DataBatch> = Vec::new();
    while items.len() > 0
        invariant
            size > 0,
            flags_cover(items@),
            f == (|c: Seq<SftExample>| sft_rows(c, pad_id)),
            g == (|b: DataBatch| batch_rows(b)),
            batches@.map_values(g) + chunks_of(items@, size as nat).map_values(f) == chunks_of(
                p,
                size as nat,
            ).map_values(f),
        decreases items@.len(),
    {
        let ghost before = items@;
        let at = if size < items.len() {
            size
        } else {
            items.len()
        };
        let rest = items.split_off(at);
        proof {
            assert forall|k: int| 0 <= k < items@.len() implies #[trigger] items@[k].ids@.len() <= 1
                || items@[k].trainable@.len() >= items@[k].ids@.len() by {
                assert(items@[k] == before[k]);
            }
            assert forall|k: int| 0 <= k < rest@.len() implies #[trigger] rest@[k].ids@.len() <= 1
                || rest@[k].trainable@.len() >= rest@[k].ids@.len() by {
                assert(rest@[k] == before[k + at]);
            }
        }
        let b = collate_sft(items.as_slice(), pad_id);
        let ghost prev = batches@.map_values(g);
        batches.push(b);
        proof {
            assert(batches@.map_values(g) =~= prev.push(batch_rows(b)));
            if before.len() <= size {
                assert(items@ =~= before);
                assert(rest@ =~= Seq::<SftExample>::empty());
                assert(chunks_of(before, size as nat) =~= seq![before]);
                assert(chunks_of(rest@, size as nat) =~= Seq::<Seq<SftExample>>::empty());
            } else {
                assert(items@ =~= before.take(size as int));
                assert(rest@ =~= before.skip(size as int));
            }
            assert(chunks_of(before, size as nat).map_values(f) =~= seq![f(items@)] + chunks_of(
                rest@,
                size as nat,
            ).map_values(f));
            assert(batches@.map_values(g) + chunks_of(rest@, size as nat).map_values(f)
                =~= prev + chunks_of(before, size as nat).map_values(f));
        }
        items = rest;
    }
    proof {
        assert(chunks_of(items@, size as nat) =~= Seq::<Seq<SftExample>>::empty());
        assert(batches@.map_values(g) + Seq::<(Seq<Seq<u32>>, Seq<Seq<u32>>, Seq<Seq<u8>>)>::empty()
            =~= batches@.map_values(g));
    }
    Ok(batches)
}

/// A permutation keeps every example's flags covering its tokens.
proof fn lemma_flags_cover_permutation(a: Seq<SftExample>, b: Seq<SftExample>)
    requires
        flags_cover(a),
        b.to_multiset() == a.to_multiset(),
    ensures
        flags_cover(b),
{
    broadcast use vstd::seq_lib::group_to_multiset_ensures;
    assert forall|k: int| 0 <= k < b.len() implies (#[trigger] b[k]).ids@.len() <= 1
        || b[k].trainable@.len() >= b[k].ids@.len() by {
        assert(b.contains(b[k]));
        assert(b.to_multiset().count(b[k]) > 0);
        assert(a.contains(b[k]));
        let j = choose|j: int| 0 <= j < a.len() && a[j] == b[k];
        assert(a[j] == b[k]);
    }
}

} // verus!

verus! {

/// What tokenizing a set of conversations gave.
pub struct SftTokenized {
    /// The usable examples, in conversation order.
    pub examples: Vec<SftExample>,
    /// Conversations with no assistant token within the length limit.
    pub truncated_away: usize,
    /// Conversations the tokenizer failed on.
    pub failed: usize,
    /// The first tokenizer error, if any.
    pub first_error: Option<String>,
}

/// Tokenizes every conversation, sorting them into usable examples, ones
/// cut away by `max_len`, and failures.
pub fn tokenize_conversations(
    tokenizer: &QuarkTokenizer,
    conversations: &Vec<Vec<ChatMessage>>,
    max_len: usize,
) -> (r: SftTokenized)
    requires
        forall|k: int| 0 <= k < conversations@.len() ==> utf8_len(segments_text(training_segments(#[trigger] conversations@[k]@))) <= usize::MAX,
    ensures
        r.examples@.len() + r.truncated_away + r.failed == conversations@.len(),
        flags_cover(r.examples@),
        (r.failed == 0) == (r.first_error is None),
{
    let mut examples: Vec<SftExample> = Vec::new();
    let mut truncated_away: usize = 0;
    let mut failed: usize = 0;
    let mut first_error: Option<String> = None;
    let mut i: usize = 0;
    while i < conversations.len()
        invariant
            i <= conversations@.len(),
            examples@.len() + truncated_away + failed == i,
            forall|k: int| 0 <= k < examples@.len() ==> (#[trigger] examples@[k]).trainable@.len() == examples@[k].ids@.len(),
            (failed == 0) == (first_error is None),
            forall|k: int| 0 <= k < conversations@.len() ==> utf8_len(segments_text(training_segments(#[trigger] conversations@[k]@))) <= usize::MAX,
        decreases conversations@.len() - i,
    {
        let msgs = &conversations[i];
        match tokenize_conversation(tokenizer, msgs.as_slice(), max_len) {
            Ok(Some(ex)) => {
                examples.push(ex);
            },
            Ok(None) => {
                truncated_away = truncated_away + 1;
            },
            Err(e) => {
                if first_error.is_none() {
                    first_error = Some(e);
                }
                failed = failed + 1;
            },
        }
        i = i + 1;
    }
    SftTokenized { examples, truncated_away, failed, first_error }
}

} // verus!
