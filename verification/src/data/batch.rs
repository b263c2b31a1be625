//! Collation of token sequences into padded next-token-prediction batches.

use vstd::prelude::*;
use crate::seqs::{fit, fit_vec, rows};

verus! {

/// A single training mini-batch of token ids.
pub struct DataBatch {
    /// Shape: [batch, seq]
    pub input_ids: Vec<Vec<u32>>,
    /// Shape: [batch, seq] — shifted by one for next-token prediction.
    pub labels: Vec<Vec<u32>>,
    /// Shape: [batch, seq] — 1 for real tokens, 0 for padding.
    pub attention_mask: Vec<Vec<u8>>,
}

/// Length of the longest sequence (0 for none).
pub open spec fn max_len(seqs: Seq<Seq<u32>>) -> nat
    decreases seqs.len(),
{
    if seqs.len() == 0 {
        0
    } else {
        let m = max_len(seqs.drop_last());
        if seqs.last().len() > m { seqs.last().len() } else { m }
    }
}

/// The attention mask of a sequence of `len` real tokens padded to `n`.
pub open spec fn mask_row(len: nat, n: nat) -> Seq<u8> {
    Seq::new(n, |j: int| if j < len { 1u8 } else { 0u8 })
}

/// Next-token labels of `s` padded to `n`: position `j` holds `s[j + 1]`,
/// and `pad` where there is no next token.
pub open spec fn shifted_row(s: Seq<u32>, n: nat, pad: u32) -> Seq<u32> {
    Seq::new(n, |j: int| if j + 1 < s.len() { s[j + 1] } else { pad })
}

pub proof fn lemma_max_len_bounds(seqs: Seq<Seq<u32>>)
    ensures
        forall|k: int| 0 <= k < seqs.len() ==> #[trigger] seqs[k].len() <= max_len(seqs),
        seqs.len() > 0 ==> exists|k: int| 0 <= k < seqs.len() && #[trigger] seqs[k].len() == max_len(seqs),
    decreases seqs.len(),
{
    if seqs.len() > 0 {
        let init = seqs.drop_last();
        lemma_max_len_bounds(init);
        assert forall|k: int| 0 <= k < seqs.len() implies #[trigger] seqs[k].len() <= max_len(seqs) by {
            if k < init.len() {
                assert(init[k] == seqs[k]);
            }
        }
        if seqs.last().len() <= max_len(init) && init.len() > 0 {
            let k = choose|k: int| 0 <= k < init.len() && #[trigger] init[k].len() == max_len(init);
            assert(seqs[k] == init[k]);
        }
    }
}

fn max_row_len(seqs: &Vec<Vec<u32>>) -> (m: usize)
    ensures
        m == max_len(rows(seqs@)),
{
    let mut m: usize = 0;
    let mut i: usize = 0;
    while i < seqs.len()
        invariant
            i <= seqs.len(),
            m == max_len(rows(seqs@).take(i as int)),
        decreases seqs.len() - i,
    {
        proof {
            let t = rows(seqs@).take(i as int + 1);
            assert(t.drop_last() =~= rows(seqs@).take(i as int));
            assert(t.last() == seqs@[i as int]@);
        }
        if seqs[i].len() > m {
            m = seqs[i].len();
        }
        i = i + 1;
    }
    assert(rows(seqs@).take(i as int) =~= rows(seqs@));
    m
}

pub(crate) fn mask_vec(len: usize, n: usize) -> (r: Vec<u8>)
    ensures
        r@ == mask_row(len as nat, n as nat),
{
    let mut r: Vec<u8> = Vec::with_capacity(n);
    let mut j: usize = 0;
    while j < n
        invariant
            j <= n,
            r@ == mask_row(len as nat, n as nat).take(j as int),
        decreases n - j,
    {
        if j < len {
            r.push(1u8);
        } else {
            r.push(0u8);
        }
        j = j + 1;
        assert(r@ =~= mask_row(len as nat, n as nat).take(j as int));
    }
    assert(r@ =~= mask_row(len as nat, n as nat));
    r
}

fn shifted_vec(s: &Vec<u32>, n: usize, pad: u32) -> (r: Vec<u32>)
    ensures
        r@ == shifted_row(s@, n as nat, pad),
{
    let mut r: Vec<u32> = Vec::with_capacity(n);
    let mut j: usize = 0;
    while j < n
        invariant
            j <= n,
            r@ == shifted_row(s@, n as nat, pad).take(j as int),
        decreases n - j,
    {
        if j < s.len() && j + 1 < s.len() {
            r.push(s[j + 1]);
        } else {
            r.push(pad);
        }
        j = j + 1;
        assert(r@ =~= shifted_row(s@, n as nat, pad).take(j as int));
    }
    assert(r@ =~= shifted_row(s@, n as nat, pad));
    r
}

/// The rows of a batch: input ids, labels and attention mask.
pub open spec fn batch_rows(b: DataBatch) -> (Seq<Seq<u32>>, Seq<Seq<u32>>, Seq<Seq<u8>>) {
    (rows(b.input_ids@), rows(b.labels@), rows(b.attention_mask@))
}

/// The rows of the next-token batch of `seqs`: each padded to the longest,
/// labelled with its next token, and masked over its real tokens.
pub open spec fn seq_rows(seqs: Seq<Seq<u32>>, pad: u32) -> (Seq<Seq<u32>>, Seq<Seq<u32>>, Seq<Seq<u8>>) {
    let n = max_len(seqs);
    (
        seqs.map_values(|s: Seq<u32>| fit(s, n, pad)),
        seqs.map_values(|s: Seq<u32>| shifted_row(s, n, pad)),
        seqs.map_values(|s: Seq<u32>| mask_row(s.len(), n)),
    )
}

/// Collate a list of token sequences into a `DataBatch`, padding to the longest
/// sequence in the list.
///
/// `labels` are the input ids shifted left by one position (next-token
/// prediction).  The last position of each label sequence is set to `pad_id`
/// (ignored during loss computation).
pub fn collate_batch(sequences: Vec<Vec<u32>>, pad_id: u32) -> (batch: DataBatch)
    ensures
        batch_rows(batch) == seq_rows(rows(sequences@), pad_id),
{
    let ghost seqs = rows(sequences@);
    let max = max_row_len(&sequences);
    let mut input_ids: Vec<Vec<u32>> = Vec::with_capacity(sequences.len());
    let mut labels: Vec<Vec<u32>> = Vec::with_capacity(sequences.len());
    let mut attention_mask: Vec<Vec<u8>> = Vec::with_capacity(sequences.len());
    let mut i: usize = 0;
    while i < sequences.len()
        invariant
            i <= sequences.len(),
            seqs == rows(sequences@),
            max == max_len(seqs),
            input_ids@.len() == i,
            labels@.len() == i,
            attention_mask@.len() == i,
            forall|k: int| 0 <= k < i ==> #[trigger] input_ids@[k]@ == fit(seqs[k], max as nat, pad_id),
            forall|k: int| 0 <= k < i ==> #[trigger] labels@[k]@ == shifted_row(seqs[k], max as nat, pad_id),
            forall|k: int| 0 <= k < i ==> #[trigger] attention_mask@[k]@ == mask_row(seqs[k].len(), max as nat),
        decreases sequences.len() - i,
    {
        let seq = &sequences[i];
        input_ids.push(fit_vec(seq, max, pad_id));
        labels.push(shifted_vec(seq, max, pad_id));
        attention_mask.push(mask_vec(seq.len(), max));
        i = i + 1;
    }
    assert(rows(input_ids@) =~= seq_rows(seqs, pad_id).0);
    assert(rows(labels@) =~= seq_rows(seqs, pad_id).1);
    assert(rows(attention_mask@) =~= seq_rows(seqs, pad_id).2);
    DataBatch { input_ids, labels, attention_mask }
}

} // verus!
