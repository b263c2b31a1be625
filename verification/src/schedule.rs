//! The schedule of a training run: which batch each micro-step reads (and
//! where a resumed run picks up), how many batches are held out for
//! evaluation, on which steps the run evaluates, reports and saves, which
//! checkpoints a streamed run keeps, and the synthetic batches it trains on
//! when no corpus is given.

use vstd::prelude::*;
use vstd::utf8::encode_utf8;
use vstd::arithmetic::div_mod::{lemma_fundamental_div_mod, lemma_fundamental_div_mod_converse};

use crate::data::batch::{collate_batch, batch_rows, seq_rows, DataBatch};
use crate::order::{lemma_bytes_lt_asym, lemma_bytes_lt_total, lemma_bytes_lt_trans, str_less, str_lt};
use crate::seqs::rows;
use crate::tokens::PAD_ID;
use crate::training::{at_least_one, join_path, path_join, KEPT_CHECKPOINTS};

verus! {

/// Batches held out for evaluation out of `n`: about 1% (at least one) once
/// there are 20 or more, none before.
pub open spec fn held_out(n: int) -> int {
    if n >= 20 {
        if n / 100 >= 1 {
            n / 100
        } else {
            1
        }
    } else {
        0
    }
}

/// How many of `n_batches` batches are held out for evaluation (taken from
/// the end); training always keeps most of them.
pub fn held_out_count(n_batches: usize) -> (r: usize)
    ensures
        r == held_out(n_batches as int),
        n_batches >= 20 ==> 1 <= r && r * 100 <= n_batches + 99 && r < n_batches,
        n_batches < 20 ==> r == 0,
{
    if n_batches >= 20 {
        let n = n_batches / 100;
        if n >= 1 {
            n
        } else {
            1
        }
    } else {
        0
    }
}

/// Where the next batch is read: the index of the next batch (equal to the
/// number of batches when a pass has just ended) and the passes begun
/// before the current one.
#[derive(Debug, Clone, Copy, PartialEq, Eq, Structural)]
pub struct BatchCursor {
    pub next: usize,
    pub epoch: u32,
}

/// Batches read before the cursor: `epoch` full passes over `total` batches
/// and `next` more.
pub open spec fn cursor_position(c: BatchCursor, total: int) -> int {
    c.epoch * total + c.next
}

/// The cursor of a run resumed at `step`, with `accum` batches per step,
/// over `total` batches (a run without batches counts one).
pub open spec fn resume_cursor(step: int, accum: int, total: int) -> BatchCursor {
    BatchCursor {
        next: ((step * accum) % at_least_one(total)) as usize,
        epoch: ((step * accum) / at_least_one(total)) as u32,
    }
}

/// The cursor after taking one batch of `total`, and the index taken: a new
/// pass starts when the current one is over.
pub open spec fn advanced(c: BatchCursor, total: int) -> (BatchCursor, int) {
    if c.next >= total {
        (BatchCursor { next: 1, epoch: (c.epoch + 1) as u32 }, 0)
    } else {
        (BatchCursor { next: (c.next + 1) as usize, epoch: c.epoch }, c.next as int)
    }
}

/// The cursor after taking `j` batches.
pub open spec fn advanced_by(c: BatchCursor, total: int, j: nat) -> BatchCursor
    decreases j,
{
    if j == 0 {
        c
    } else {
        advanced(advanced_by(c, total, (j - 1) as nat), total).0
    }
}

impl BatchCursor {
    /// The cursor of a run resumed at `step` with `accum` batches per step
    /// over `total` batches.
    pub fn resume(step: u64, accum: usize, total: usize) -> (c: Self)
        requires
            step <= usize::MAX,
            step * accum <= usize::MAX,
        ensures
            c == resume_cursor(step as int, accum as int, total as int),
    {
        let pos = step as usize * accum;
        let t = if total > 1 {
            total
        } else {
            1
        };
        BatchCursor { next: pos % t, epoch: (pos / t) as u32 }
    }

    /// Takes the next of `total` batches: when the pass is over a new one
    /// begins at the first batch. Returns the index taken and whether a
    /// pass began.
    pub fn advance(&mut self, total: usize) -> (r: (usize, bool))
        requires
            total > 0,
            old(self).next >= total ==> old(self).epoch < u32::MAX,
        ensures
            r.1 == (old(self).next >= total),
            *final(self) == advanced(*old(self), total as int).0,
            r.0 == advanced(*old(self), total as int).1,
            r.0 < total,
    {
        let began = self.next >= total;
        if began {
            self.next = 0;
            self.epoch = self.epoch + 1;
        }
        let i = self.next;
        self.next = self.next + 1;
        (i, began)
    }
}

/// Taking a batch moves the cursor one batch on, and takes the batch at its
/// position counted round the batches.
proof fn lemma_advance_position(c: BatchCursor, total: int)
    requires
        0 < total <= usize::MAX,
        c.next <= total,
        cursor_position(c, total) / total <= u32::MAX,
    ensures
        advanced(c, total).0.next <= total,
        cursor_position(advanced(c, total).0, total) == cursor_position(c, total) + 1,
        advanced(c, total).1 == cursor_position(c, total) % total,
{
    let p = cursor_position(c, total);
    if c.next >= total {
        assert(p == (c.epoch + 1) * total + 0) by (nonlinear_arith)
            requires
                p == c.epoch * total + c.next,
                c.next == total,
        ;
        lemma_fundamental_div_mod_converse(p, total, c.epoch + 1, 0);
        assert(cursor_position(advanced(c, total).0, total) == (c.epoch + 1) * total + 1);
        assert((c.epoch + 1) * total == c.epoch * total + total) by (nonlinear_arith);
    } else {
        lemma_fundamental_div_mod_converse(p, total, c.epoch as int, c.next as int);
    }
}

/// A resumed run reads the batches an uninterrupted one would: after a run
/// resumed at `step` (with `accum` batches per step, over `total` batches)
/// has taken `j` batches, the next one it takes is batch
/// `(step·accum + j) mod total`, the one a run started at step 0 takes at
/// that point.
pub proof fn law_resume_continues_the_pass(step: int, accum: int, total: int, j: nat)
    requires
        step >= 0,
        accum >= 0,
        0 < total <= usize::MAX,
        step * accum <= usize::MAX,
        (step * accum + j) / total <= u32::MAX,
    ensures
        advanced(advanced_by(resume_cursor(step, accum, total), total, j), total as int).1
            == (step * accum + j) % total,
        cursor_position(advanced_by(resume_cursor(step, accum, total), total, j), total as int)
            == step * accum + j,
        advanced_by(resume_cursor(step, accum, total), total, j).next <= total,
    decreases j,
{
    let t = total;
    let c0 = resume_cursor(step, accum, t);
    let base = step * accum;
    assert(step * accum >= 0) by (nonlinear_arith)
        requires
            step >= 0,
            accum >= 0,
    ;
    if j == 0 {
        lemma_fundamental_div_mod(base, t);
        assert(base / t <= u32::MAX);
        assert(c0.epoch == base / t);
        assert(c0.next == base % t);
        assert(cursor_position(c0, t) == base) by (nonlinear_arith)
            requires
                base == t * (base / t) + base % t,
                c0.epoch == base / t,
                c0.next == base % t,
        ;
        lemma_advance_position(c0, t);
    } else {
        vstd::arithmetic::div_mod::lemma_div_is_ordered(base + j - 1, base + j, t);
        law_resume_continues_the_pass(step, accum, total, (j - 1) as nat);
        let prev = advanced_by(c0, t, (j - 1) as nat);
        lemma_advance_position(prev, t);
        lemma_advance_position(advanced_by(c0, t, j), t);
    }
}


/// Whether the run evaluates after `step`: when it has held-out batches and
/// `step` is a multiple of `eval_every` (never when that is 0).
pub fn evaluates_at(step: u64, eval_every: u64, has_eval: bool) -> (r: bool)
    ensures
        r == (has_eval && eval_every > 0 && step % eval_every == 0),
{
    has_eval && eval_every > 0 && step % eval_every == 0
}

/// Whether the run saves a checkpoint after `step` on its way: on multiples
/// of `save_every` (never when that is 0) before the last step, which always
/// saves once the loop ends.
pub fn saves_at(step: u64, max_steps: u64, save_every: u64) -> (r: bool)
    ensures
        r == (step < max_steps && save_every > 0 && step % save_every == 0),
{
    step < max_steps && save_every > 0 && step % save_every == 0
}

/// Whether a step is reported in detail (memory sampled, a log line): the
/// first step of this run and every tenth step.
pub fn reports_at(steps_this_run: u64, step: u64) -> (r: bool)
    ensures
        r == (steps_this_run == 1 || step % 10 == 0),
{
    steps_this_run == 1 || step % 10 == 0
}

/// What the in-memory run logs after a step.
#[derive(Debug, Clone, Copy, PartialEq, Eq, Structural)]
pub enum StepNote {
    /// The first optimizer step of this run is done.
    First,
    /// A progress line (every hundredth step).
    Progress,
    /// Nothing.
    Quiet,
}

/// What the in-memory run logs after `step`, the `steps_this_run`-th of
/// this run.
pub fn step_note(steps_this_run: u64, step: u64) -> (r: StepNote)
    ensures
        r == (if steps_this_run == 1 {
            StepNote::First
        } else if step % 100 == 0 {
            StepNote::Progress
        } else {
            StepNote::Quiet
        }),
{
    if steps_this_run == 1 {
        StepNote::First
    } else if step % 100 == 0 {
        StepNote::Progress
    } else {
        StepNote::Quiet
    }
}

/// Token `i` of synthetic batch `offset` when each holds `n` tokens, over a
/// vocabulary of `vocab` ids.
pub open spec fn demo_id(offset: int, n: int, i: int, vocab: int) -> i32 {
    ((offset * n + i) % vocab) as i32
}

/// The synthetic batch number `offset` of the in-memory run when no corpus
/// is given: `batch_size × seq` ids counting up round the vocabulary, the
/// labels one ahead, and the number of tokens.
pub fn demo_ids(batch_size: usize, seq: usize, vocab: usize, offset: usize) -> (r: (Vec<i32>, Vec<i32>, u64))
    requires
        vocab > 0,
        batch_size * seq <= usize::MAX,
        offset * (batch_size * seq) + batch_size * seq <= usize::MAX,
    ensures
        r.0@.len() == batch_size * seq,
        r.1@.len() == batch_size * seq,
        r.2 == batch_size * seq,
        forall|i: int| 0 <= i < batch_size * seq ==> #[trigger] r.0@[i] == demo_id(offset as int, batch_size * seq, i, vocab as int),
        forall|i: int| 0 <= i < batch_size * seq ==> #[trigger] r.1@[i] == demo_id(offset as int, batch_size * seq, i + 1, vocab as int),
{
    let n = batch_size * seq;
    let base = offset * n;
    let mut ids: Vec<i32> = Vec::new();
    let mut labels: Vec<i32> = Vec::new();
    let mut i: usize = 0;
    while i < n
        invariant
            i <= n,
            n == batch_size * seq,
            base == offset * n,
            base + n <= usize::MAX,
            vocab > 0,
            ids@.len() == i,
            labels@.len() == i,
            forall|k: int| 0 <= k < i ==> #[trigger] ids@[k] == demo_id(offset as int, n as int, k, vocab as int),
            forall|k: int| 0 <= k < i ==> #[trigger] labels@[k] == demo_id(offset as int, n as int, k + 1, vocab as int),
        decreases n - i,
    {
        ids.push(((base + i) % vocab) as i32);
        labels.push(((base + i + 1) % vocab) as i32);
        i = i + 1;
    }
    (ids, labels, n as u64)
}

/// Token `t` of row `r` of synthetic batch `k` of a streamed run.
pub open spec fn demo_token(k: int, r: int, t: int, vocab: int) -> u32 {
    ((k * 131 + r * 17 + t) % vocab) as u32
}

/// The rows of synthetic batch `k` of a streamed run.
pub open spec fn demo_seqs(k: int, n_rows: int, seq: int, vocab: int) -> Seq<Seq<u32>> {
    Seq::new(n_rows as nat, |r: int| Seq::new(seq as nat, |t: int| demo_token(k, r, t, vocab)))
}

/// The rows of synthetic batch `k` of a streamed run.
fn demo_rows(k: usize, n_rows: usize, seq: usize, vocab: usize) -> (v: Vec<Vec<u32>>)
    requires
        vocab > 0,
        k * 131 + n_rows * 17 + seq <= usize::MAX,
    ensures
        rows(v@) == demo_seqs(k as int, n_rows as int, seq as int, vocab as int),
{
    let mut v: Vec<Vec<u32>> = Vec::new();
    let mut r: usize = 0;
    while r < n_rows
        invariant
            r <= n_rows,
            vocab > 0,
            k * 131 + n_rows * 17 + seq <= usize::MAX,
            rows(v@) == demo_seqs(k as int, r as int, seq as int, vocab as int),
        decreases n_rows - r,
    {
        let mut row: Vec<u32> = Vec::new();
        let mut t: usize = 0;
        while t < seq
            invariant
                t <= seq,
                r < n_rows,
                vocab > 0,
                k * 131 + n_rows * 17 + seq <= usize::MAX,
                row@ == Seq::new(t as nat, |u: int| demo_token(k as int, r as int, u, vocab as int)),
            decreases seq - t,
        {
            row.push(((k * 131 + r * 17 + t) % vocab) as u32);
            t = t + 1;
            assert(row@ =~= Seq::new(t as nat, |u: int| demo_token(k as int, r as int, u, vocab as int)));
        }
        assert(row@ =~= Seq::new(seq as nat, |u: int| demo_token(k as int, r as int, u, vocab as int)));
        let ghost before = rows(v@);
        v.push(row);
        r = r + 1;
        assert(rows(v@) =~= before.push(row@));
        assert(rows(v@) =~= demo_seqs(k as int, r as int, seq as int, vocab as int));
    }
    v
}

/// The synthetic batches a streamed run trains on when no corpus is given:
/// eight batches of `batch_size` rows (at least one) of up to 64 tokens
/// (the context length when shorter).
pub fn demo_batches(batch_size: usize, max_position_embeddings: usize, vocab: usize) -> (v: Vec<DataBatch>)
    requires
        vocab > 0,
        7 * 131 + batch_size * 17 + 17 + 64 <= usize::MAX,
    ensures
        v@.len() == 8,
        forall|k: int| 0 <= k < 8 ==> #[trigger] batch_rows(v@[k]) == seq_rows(
            demo_seqs(
                k,
                at_least_one(batch_size as int),
                if max_position_embeddings < 64 { max_position_embeddings as int } else { 64 },
                vocab as int,
            ),
            PAD_ID,
        ),
{
    let seq = if max_position_embeddings < 64 {
        max_position_embeddings
    } else {
        64
    };
    let n_rows = if batch_size > 1 {
        batch_size
    } else {
        1
    };
    let mut v: Vec<DataBatch> = Vec::new();
    let mut k: usize = 0;
    while k < 8
        invariant
            k <= 8,
            vocab > 0,
            n_rows as int == at_least_one(batch_size as int),
            seq as int == (if max_position_embeddings < 64 { max_position_embeddings as int } else { 64 }),
            7 * 131 + batch_size * 17 + 17 + 64 <= usize::MAX,
            v@.len() == k,
            forall|j: int| 0 <= j < k ==> #[trigger] batch_rows(v@[j]) == seq_rows(
                demo_seqs(j, n_rows as int, seq as int, vocab as int),
                PAD_ID,
            ),
        decreases 8 - k,
    {
        let seqs = demo_rows(k, n_rows, seq, vocab);
        v.push(collate_batch(seqs, PAD_ID));
        k = k + 1;
    }
    v
}

/// The RAM limits of a streamed run's two tensor stores, out of the tier's
/// RAM limit (at least 1 GiB): half for weights, a quarter for activations.
pub fn cache_limits(ram_limit: u64) -> (r: (u64, u64))
    ensures
        ({
            let ram = if ram_limit >= 0x4000_0000 { ram_limit as int } else { 0x4000_0000 };
            r.0 == ram / 2 && r.1 == ram / 4
        }),
{
    let ram = if ram_limit >= 0x4000_0000 {
        ram_limit
    } else {
        0x4000_0000
    };
    (ram / 2, ram / 4)
}

/// Records checkpoint `dir` as saved after those in `saved` (oldest first)
/// and retires the oldest while more than `KEPT_CHECKPOINTS` are kept.
/// Returns the retired ones, oldest first; their directories are removed.
pub fn keep_latest(saved: &mut Vec<String>, dir: String) -> (retired: Vec<String>)
    ensures
        ({
            let all = old(saved)@.push(dir);
            let cut = if all.len() > KEPT_CHECKPOINTS { all.len() - KEPT_CHECKPOINTS } else { 0 };
            &&& final(saved)@ == all.skip(cut)
            &&& retired@ == all.take(cut)
        }),
        final(saved)@.len() <= KEPT_CHECKPOINTS || final(saved)@.len() == old(saved)@.len() + 1,
{
    let ghost all = old(saved)@.push(dir);
    saved.push(dir);
    let mut retired: Vec<String> = Vec::new();
    while saved.len() as u64 > KEPT_CHECKPOINTS
        invariant
            retired@ + saved@ == all,
            all.len() > KEPT_CHECKPOINTS ==> retired@.len() <= all.len() - KEPT_CHECKPOINTS,
            all.len() <= KEPT_CHECKPOINTS ==> retired@.len() == 0,
        decreases saved@.len(),
    {
        let old_one = saved.remove(0);
        let ghost before = retired@;
        retired.push(old_one);
        assert(retired@ + saved@ =~= all) by {
            assert(before + seq![old_one] + saved@ =~= all);
        }
    }
    proof {
        let cut = if all.len() > KEPT_CHECKPOINTS { all.len() - KEPT_CHECKPOINTS } else { 0 };
        assert(retired@.len() == cut);
        assert(retired@ =~= all.take(cut as int));
        assert(saved@ =~= all.skip(cut as int));
    }
    retired
}

/// Where a fine-tuning run reads its tokenizer and writes its checkpoints:
/// the tokenizer saved inside the base checkpoint when it has one
/// (`own_tokenizer`), else the one beside it in `base_dir`; and the output
/// directory, unless it is the base checkpoint's directory (`same_dir`), in
/// which case `finetune` under it, so the base is never written into.
pub fn finetune_paths(
    base_checkpoint: &str,
    base_dir: &str,
    output_dir: &str,
    own_tokenizer: bool,
    same_dir: bool,
) -> (r: (String, String))
    ensures
        r.0@ == (if own_tokenizer {
            path_join(base_checkpoint@, "tokenizer.json"@)
        } else {
            path_join(base_dir@, "tokenizer.json"@)
        }),
        r.1@ == (if same_dir {
            path_join(base_dir@, "finetune"@)
        } else {
            output_dir@
        }),
{
    let tokenizer = if own_tokenizer {
        join_path(base_checkpoint, "tokenizer.json")
    } else {
        join_path(base_dir, "tokenizer.json")
    };
    let output = if same_dir {
        join_path(base_dir, "finetune")
    } else {
        output_dir.to_owned()
    };
    (tokenizer, output)
}


/// A found checkpoint as plain values: its step and its directory.
pub open spec fn found_view(v: Seq<(u64, String)>) -> Seq<(u64, Seq<char>)> {
    v.map_values(|p: (u64, String)| (p.0, p.1@))
}

/// `a` before `b`: by step, then by directory name.
pub open spec fn step_lt(a: (u64, Seq<char>), b: (u64, Seq<char>)) -> bool {
    a.0 < b.0 || (a.0 == b.0 && str_lt(a.1, b.1))
}

/// Whether `s` is ordered by step, then by directory name.
pub open spec fn sorted_by_step(s: Seq<(u64, Seq<char>)>) -> bool {
    forall|i: int, j: int| 0 <= i < j < s.len() ==> !step_lt(#[trigger] s[j], #[trigger] s[i])
}

/// `step_lt` is a strict total order.
proof fn lemma_step_lt(a: (u64, Seq<char>), b: (u64, Seq<char>), c: (u64, Seq<char>))
    ensures
        !(step_lt(a, b) && step_lt(b, a)),
        !step_lt(a, a),
        step_lt(a, b) && step_lt(b, c) ==> step_lt(a, c),
        !step_lt(a, b) && !step_lt(b, a) ==> a == b,
{
    lemma_bytes_lt_asym(encode_utf8(a.1), encode_utf8(b.1));
    if step_lt(a, b) && step_lt(b, c) && a.0 == b.0 && b.0 == c.0 {
        lemma_bytes_lt_trans(encode_utf8(a.1), encode_utf8(b.1), encode_utf8(c.1));
    }
    if !step_lt(a, b) && !step_lt(b, a) {
        lemma_bytes_lt_total(encode_utf8(a.1), encode_utf8(b.1));
        vstd::utf8::encode_utf8_decode_utf8(a.1);
        vstd::utf8::encode_utf8_decode_utf8(b.1);
    }
}

/// The checkpoints found in the output directory, oldest first: ordered by
/// step, then by directory name (the order of `(step, path)` pairs).
pub fn sort_by_step(found: Vec<(u64, String)>) -> (r: Vec<(u64, String)>)
    ensures
        sorted_by_step(found_view(r@)),
        found_view(r@).to_multiset() == found_view(found@).to_multiset(),
{
    broadcast use vstd::seq_lib::group_to_multiset_ensures;

    let mut out: Vec<(u64, String)> = Vec::new();
    let mut rest = found;
    let ghost all = found_view(rest@);
    while rest.len() > 0
        invariant
            sorted_by_step(found_view(out@)),
            found_view(out@).to_multiset().add(found_view(rest@).to_multiset()) == all.to_multiset(),
        decreases rest@.len(),
    {
        let ghost before_rest = found_view(rest@);
        let x = rest.pop().unwrap();
        let ghost xv = (x.0, x.1@);
        proof {
            assert(before_rest =~= found_view(rest@).push(xv));
        }
        let mut p: usize = 0;
        while p < out.len() && !(x.0 < out[p].0 || (x.0 == out[p].0 && str_less(&x.1, &out[p].1)))
            invariant
                p <= out@.len(),
                xv == (x.0, x.1@),
                forall|k: int| 0 <= k < p ==> !step_lt(xv, #[trigger] found_view(out@)[k]),
            decreases out@.len() - p,
        {
            p = p + 1;
        }
        let ghost old_out = found_view(out@);
        out.insert(p, x);
        proof {
            let no = found_view(out@);
            assert(no =~= old_out.insert(p as int, xv));
            assert forall|i: int, j: int| 0 <= i < j < no.len() implies !step_lt(#[trigger] no[j], #[trigger] no[i]) by {
                if j < p {
                    assert(no[i] == old_out[i] && no[j] == old_out[j]);
                } else if j == p {
                    assert(no[i] == old_out[i]);
                    assert(!step_lt(xv, old_out[i]));
                } else if i == p {
                    assert(no[j] == old_out[j - 1]);
                    assert(p < old_out.len());
                    assert(step_lt(xv, old_out[p as int]));
                    lemma_step_lt(old_out[j - 1], xv, old_out[p as int]);
                    lemma_step_lt(old_out[p as int], old_out[j - 1], xv);
                    if j - 1 > p {
                        assert(!step_lt(old_out[j - 1], old_out[p as int]));
                    }
                } else if i < p {
                    assert(no[i] == old_out[i]);
                    assert(no[j] == old_out[j - 1]);
                } else {
                    assert(no[i] == old_out[i - 1]);
                    assert(no[j] == old_out[j - 1]);
                }
            }
            assert(no.remove(p as int) =~= old_out);
            assert(no[p as int] == xv);
            assert(no.to_multiset() =~= old_out.to_multiset().insert(xv)) by {
                no.to_multiset_ensures();
                assert(no.remove(p as int).to_multiset() =~= no.to_multiset().remove(xv));
                assert(no.to_multiset().count(xv) > 0) by {
                    assert(no.contains(xv));
                }
            }
            found_view(rest@).to_multiset_ensures();
            assert(before_rest.to_multiset() =~= found_view(rest@).to_multiset().insert(xv));
            assert(no.to_multiset().add(found_view(rest@).to_multiset()) =~= old_out.to_multiset().add(
                before_rest.to_multiset(),
            ));
        }
    }
    proof {
        assert(found_view(rest@) =~= Seq::<(u64, Seq<char>)>::empty());
        assert(found_view(rest@).to_multiset() =~= vstd::multiset::Multiset::empty());
        assert(found_view(out@).to_multiset().add(vstd::multiset::Multiset::empty()) =~= found_view(
            out@,
        ).to_multiset());
    }
    out
}

} // verus!
