//! Packing of token sequences into fixed-length chunks.

use vstd::prelude::*;
use crate::seqs::rows;
use crate::tokens::EOS_ID;

verus! {

broadcast use Seq::lemma_flatten_push;

/// Every document followed by an EOS separator, all concatenated.
pub open spec fn eos_stream(seqs: Seq<Seq<u32>>) -> Seq<u32> {
    seqs.map_values(|s: Seq<u32>| s.push(EOS_ID)).flatten()
}

/// `chunks` is `stream` cut into consecutive pieces of exactly `n` tokens,
/// except the last, which holds the 1..=n tokens left over.
pub open spec fn is_chunking(chunks: Seq<Seq<u32>>, stream: Seq<u32>, n: nat) -> bool {
    &&& chunks.flatten() == stream
    &&& forall|k: int| 0 <= k < chunks.len() - 1 ==> #[trigger] chunks[k].len() == n
    &&& chunks.len() > 0 ==> 0 < chunks.last().len() <= n
}

/// Pack variable-length sequences into fixed-length chunks to maximise GPU
/// utilisation.  Sequences are concatenated with an EOS token between them
/// and then split into chunks of exactly `max_seq_len` tokens.  The final
/// partial chunk (if any) is kept as-is.
pub fn pack_sequences(sequences: Vec<Vec<u32>>, max_seq_len: usize) -> (packed: Vec<Vec<u32>>)
    ensures
        max_seq_len == 0 ==> packed@.len() == 0,
        max_seq_len > 0 ==> is_chunking(rows(packed@), eos_stream(rows(sequences@)), max_seq_len as nat),
{
    if max_seq_len == 0 {
        return Vec::new();
    }
    let ghost seqs = rows(sequences@);
    let ghost f = |s: Seq<u32>| s.push(EOS_ID);
    let mut packed: Vec<Vec<u32>> = Vec::new();
    let mut current: Vec<u32> = Vec::new();
    let mut i: usize = 0;
    while i < sequences.len()
        invariant
            i <= sequences.len(),
            seqs == rows(sequences@),
            f == (|s: Seq<u32>| s.push(EOS_ID)),
            max_seq_len > 0,
            current@.len() < max_seq_len,
            forall|k: int| 0 <= k < packed@.len() ==> #[trigger] packed@[k]@.len() == max_seq_len,
            rows(packed@).flatten() + current@ == seqs.take(i as int).map_values(f).flatten(),
        decreases sequences.len() - i,
    {
        let seq = &sequences[i];
        let ghost done = seqs.take(i as int).map_values(f).flatten();
        let mut j: usize = 0;
        while j < seq.len()
            invariant
                j <= seq.len(),
                seq@ == seqs[i as int],
                current@.len() < max_seq_len,
                forall|k: int| 0 <= k < packed@.len() ==> #[trigger] packed@[k]@.len() == max_seq_len,
                rows(packed@).flatten() + current@ == done + seq@.take(j as int),
            decreases seq.len() - j,
        {
            current.push(seq[j]);
            proof {
                assert(seq@.take(j as int + 1) =~= seq@.take(j as int).push(seq@[j as int]));
            }
            if current.len() >= max_seq_len {
                let ghost old_packed = rows(packed@);
                packed.push(current);
                current = Vec::new();
                proof {
                    assert(rows(packed@) =~= old_packed.push(rows(packed@).last()));
                }
            }
            j = j + 1;
            proof {
                assert(done + seq@.take(j as int) =~= done + seq@.take(j as int - 1) + seq@.take(
                    j as int,
                ).subrange(j as int - 1, j as int));
            }
        }
        let ghost before_eos = current@;
        current.push(EOS_ID);
        proof {
            assert(seq@.take(seq@.len() as int) =~= seq@);
            assert(rows(packed@).flatten() + before_eos == done + seq@);
            assert(current@ == before_eos.push(EOS_ID));
            assert(rows(packed@).flatten() + current@ =~= (rows(packed@).flatten() + before_eos).push(EOS_ID));
            assert((done + seq@).push(EOS_ID) =~= done + seq@.push(EOS_ID));
        }
        if current.len() >= max_seq_len {
            let ghost old_packed = rows(packed@);
            packed.push(current);
            current = Vec::new();
            proof {
                assert(rows(packed@) =~= old_packed.push(rows(packed@).last()));
            }
        }
        proof {
            assert(seq@.take(seq@.len() as int) =~= seq@);
            assert(seqs.take(i as int + 1) =~= seqs.take(i as int).push(seqs[i as int]));
            assert(seqs.take(i as int + 1).map_values(f) =~= seqs.take(i as int).map_values(f).push(
                f(seqs[i as int]),
            ));
        }
        i = i + 1;
    }
    let ghost before = rows(packed@);
    if current.len() > 0 {
        packed.push(current);
        proof {
            assert(rows(packed@) =~= before.push(current@));
        }
    } else {
        proof {
            assert(before.flatten() + current@ =~= before.flatten());
        }
    }
    proof {
        assert(seqs.take(i as int) =~= seqs);
    }
    packed
}

} // verus!
