//! From tokenized documents to pretraining batches.

use vstd::prelude::*;

use crate::data::batch::{batch_rows, collate_batch, seq_rows, DataBatch};
use crate::data::packing::{eos_stream, is_chunking, pack_sequences};
use crate::data::sft::chunks_of;
use crate::seqs::rows;
use crate::tokenizer::QuarkTokenizer;
use crate::tokens::PAD_ID;

verus! {

/// The token sequences kept from the encoder's outcomes, one per document
/// (`None` where encoding failed): the non-empty ones, in order.
pub open spec fn kept_encodings(outcomes: Seq<Option<Seq<u32>>>) -> Seq<Seq<u32>>
    decreases outcomes.len(),
{
    if outcomes.len() == 0 {
        Seq::empty()
    } else {
        let rest = kept_encodings(outcomes.drop_last());
        match outcomes.last() {
            Some(ids) => if ids.len() > 0 {
                rest.push(ids)
            } else {
                rest
            },
            None => rest,
        }
    }
}

/// Tokenizes documents, keeping the non-empty token sequences of those the
/// tokenizer could encode, in order: one encoder outcome per document, and
/// the result is what `kept_encodings` keeps of them.
pub fn tokenize_texts(tokenizer: &QuarkTokenizer, texts: &Vec<String>) -> (r: Vec<Vec<u32>>)
    ensures
        exists|outcomes: Seq<Option<Seq<u32>>>|
            outcomes.len() == texts@.len() && #[trigger] kept_encodings(outcomes) == rows(r@),
        r@.len() <= texts@.len(),
        forall|k: int| 0 <= k < r@.len() ==> (#[trigger] r@[k])@.len() > 0,
{
    let mut out: Vec<Vec<u32>> = Vec::new();
    let ghost mut outcomes: Seq<Option<Seq<u32>>> = Seq::empty();
    let mut i: usize = 0;
    while i < texts.len()
        invariant
            i <= texts@.len(),
            outcomes.len() == i,
            kept_encodings(outcomes) == rows(out@),
            out@.len() <= i,
            forall|k: int| 0 <= k < out@.len() ==> (#[trigger] out@[k])@.len() > 0,
        decreases texts@.len() - i,
    {
        let ghost before = outcomes;
        match tokenizer.encode(texts[i].as_str()) {
            Ok(ids) => {
                proof {
                    outcomes = before.push(Some(ids@));
                    assert(outcomes.drop_last() =~= before);
                }
                if ids.len() > 0 {
                    let ghost prev = rows(out@);
                    out.push(ids);
                    assert(rows(out@) =~= prev.push(out@.last()@));
                }
            },
            Err(_) => {
                proof {
                    outcomes = before.push(None);
                    assert(outcomes.drop_last() =~= before);
                }
            },
        }
        i = i + 1;
    }
    out
}

/// Token sequences → pretraining batches: the sequences are packed into
/// chunks of `max_seq_len` tokens (EOS between documents), and the chunks
/// are collated `batch_size` (at least 1) at a time. An error when packing
/// leaves no token.
pub fn pretrain_batches_from(token_seqs: Vec<Vec<u32>>, max_seq_len: usize, batch_size: usize) -> (r: Result<Vec<DataBatch>, String>)
    ensures
        r is Err <==> (token_seqs@.len() == 0 || max_seq_len == 0),
        r matches Ok(batches) ==> exists|packed: Seq<Seq<u32>>|
            #[trigger] is_chunking(packed, eos_stream(rows(token_seqs@)), max_seq_len as nat)
                && batches@.map_values(|b: DataBatch| batch_rows(b)) == chunks_of(
                packed,
                if batch_size > 0 { batch_size as nat } else { 1 },
            ).map_values(|c: Seq<Seq<u32>>| seq_rows(c, PAD_ID)),
{
    let ghost seqs = rows(token_seqs@);
    let had = token_seqs.len();
    let mut items = pack_sequences(token_seqs, max_seq_len);
    let ghost packed = rows(items@);
    proof {
        if max_seq_len > 0 {
            lemma_chunking_empty(packed, eos_stream(seqs), max_seq_len as nat);
            lemma_eos_stream_empty(seqs);
        }
    }
    if items.len() == 0 {
        return Err("No training tokens after packing. Check your corpus files.".to_owned());
    }
    let size: usize = if batch_size > 0 {
        batch_size
    } else {
        1
    };
    let ghost f = |c: Seq<Seq<u32>>| seq_rows(c, PAD_ID);
    let ghost g = |b: DataBatch| batch_rows(b);
    let mut batches: Vec<DataBatch> = Vec::new();
    while items.len() > 0
        invariant
            size > 0,
            f == (|c: Seq<Seq<u32>>| seq_rows(c, PAD_ID)),
            g == (|b: DataBatch| batch_rows(b)),
            batches@.map_values(g) + chunks_of(rows(items@), size as nat).map_values(f) == chunks_of(
                packed,
                size as nat,
            ).map_values(f),
        decreases items@.len(),
    {
        let ghost before = rows(items@);
        let at = if size < items.len() {
            size
        } else {
            items.len()
        };
        let rest = items.split_off(at);
        let ghost chunk = rows(items@);
        let b = collate_batch(items, PAD_ID);
        let ghost prev = batches@.map_values(g);
        batches.push(b);
        proof {
            assert(batch_rows(b) == seq_rows(chunk, PAD_ID));
            assert(batches@.map_values(g) =~= prev.push(batch_rows(b)));
            if before.len() <= size {
                assert(chunk =~= before);
                assert(rows(rest@) =~= Seq::<Seq<u32>>::empty());
                assert(chunks_of(before, size as nat) =~= seq![before]);
                assert(chunks_of(rows(rest@), size as nat) =~= Seq::<Seq<Seq<u32>>>::empty());
            } else {
                assert(chunk =~= before.take(size as int));
                assert(rows(rest@) =~= before.skip(size as int));
            }
            assert(chunks_of(before, size as nat).map_values(f) =~= seq![f(chunk)] + chunks_of(
                rows(rest@),
                size as nat,
            ).map_values(f));
            assert(batches@.map_values(g) + chunks_of(rows(rest@), size as nat).map_values(f)
                =~= prev + chunks_of(before, size as nat).map_values(f));
        }
        items = rest;
    }
    proof {
        assert(chunks_of(rows(items@), size as nat) =~= Seq::<Seq<Seq<u32>>>::empty());
        assert(batches@.map_values(g) + Seq::<(Seq<Seq<u32>>, Seq<Seq<u32>>, Seq<Seq<u8>>)>::empty()
            =~= batches@.map_values(g));
    }
    Ok(batches)
}

/// A chunking of a stream is empty exactly when the stream is.
proof fn lemma_chunking_empty(chunks: Seq<Seq<u32>>, stream: Seq<u32>, n: nat)
    requires
        is_chunking(chunks, stream, n),
    ensures
        (chunks.len() == 0) <==> (stream.len() == 0),
{
    if chunks.len() > 0 {
        chunks.drop_last().lemma_flatten_push(chunks.last());
        assert(chunks.drop_last().push(chunks.last()) =~= chunks);
    }
}

/// The EOS stream of no documents is empty; of some, it is not.
proof fn lemma_eos_stream_empty(seqs: Seq<Seq<u32>>)
    ensures
        (eos_stream(seqs).len() == 0) <==> (seqs.len() == 0),
{
    let f = |s: Seq<u32>| s.push(crate::tokens::EOS_ID);
    if seqs.len() > 0 {
        let m = seqs.map_values(f);
        m.drop_last().lemma_flatten_push(m.last());
        assert(m.drop_last().push(m.last()) =~= m);
    } else {
        assert(seqs.map_values(f) =~= Seq::<Seq<u32>>::empty());
    }
}

} // verus!
