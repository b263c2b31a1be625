//! Training configuration choices and the bookkeeping of a training run:
//! precision, offloading, memory estimates against the hardware budget, and
//! the names and ranges the streamed trainer works with.

use vstd::prelude::*;

use crate::data::batch::DataBatch;
use crate::memory::budget::HardwareBudget;
use crate::model::{param_count_fits, param_total, training_memory, training_memory_fits, ModelShape};
use crate::text::{padded_decimal, padded_usize};
use crate::tokens::PAD_ID;

verus! {

/// Numeric precision for training compute. Checkpoints are always saved in
/// f32, so inference is unaffected.
#[derive(Debug, Clone, Copy, PartialEq, Eq, Structural)]
pub enum Precision {
    F32,
    /// bfloat16 compute: half the memory. Only available in CUDA builds.
    Bf16,
}

impl Default for Precision {
    fn default() -> (p: Self)
        ensures
            p == Precision::F32,
    {
        Precision::F32
    }
}

impl Precision {
    /// Bytes per element: 4 for f32, 2 for bf16.
    pub fn bytes_per_elem(self) -> (n: u64)
        ensures
            n == (match self {
                Precision::F32 => 4u64,
                Precision::Bf16 => 2u64,
            }),
    {
        match self {
            Precision::F32 => 4,
            Precision::Bf16 => 2,
        }
    }

    /// Whether this build can train at this precision: bf16 needs a CUDA
    /// build, which this library is not.
    pub fn is_supported(self) -> (r: bool)
        ensures
            r == (self == Precision::F32),
    {
        match self {
            Precision::F32 => true,
            Precision::Bf16 => false,
        }
    }
}

/// Whether to train in memory or streamed through RAM and disk.
#[derive(Debug, Clone, Copy, PartialEq, Eq, Structural)]
pub enum OffloadMode {
    /// Stream when the in-memory estimate doesn't fit.
    Auto,
    /// Always train in memory.
    Off,
    /// Always stream.
    On,
}

impl Default for OffloadMode {
    fn default() -> (m: Self)
        ensures
            m == OffloadMode::Auto,
    {
        OffloadMode::Auto
    }
}

/// What kind of training run this is.
#[derive(Debug, Clone)]
pub enum TrainingMode {
    /// Next-token prediction on raw `.txt` / `.jsonl` text.
    Pretrain,
    /// Supervised fine-tuning on chat conversations, starting from
    /// `base_checkpoint`.
    FineTune { base_checkpoint: String },
}

impl Default for TrainingMode {
    fn default() -> (m: Self)
        ensures
            m is Pretrain,
    {
        TrainingMode::Pretrain
    }
}

/// Which optimizer the streamed trainer uses.
#[derive(Debug, Clone, Copy, PartialEq, Eq, Structural)]
pub enum OptimizerKind {
    /// AdamW with f32 moments.
    AdamW,
    /// AdamW with an int8 block-quantized first moment and a bf16 second
    /// moment.
    AdamWCompact,
    /// Adafactor: no momentum, factored second moment for matrices.
    Adafactor,
}

impl Default for OptimizerKind {
    fn default() -> (k: Self)
        ensures
            k == OptimizerKind::AdamW,
    {
        OptimizerKind::AdamW
    }
}

/// The value of the configuration switches that are on unless set.
pub fn default_true() -> (b: bool)
    ensures
        b,
{
    true
}

/// Maximum number of held-out batches used per evaluation.
pub const MAX_EVAL_BATCHES: usize = 8;

/// Estimated training memory against what the training device has free.
#[derive(Debug, Clone, Copy)]
pub struct MemoryEstimate {
    pub needed_bytes: u64,
    pub available_bytes: u64,
    /// "VRAM" or "RAM".
    pub device: &'static str,
}

impl MemoryEstimate {
    /// Whether the run fits; an unknown amount of free memory (0) counts as
    /// fitting.
    pub fn fits(&self) -> (r: bool)
        ensures
            r == (self.available_bytes == 0 || self.needed_bytes <= self.available_bytes),
    {
        self.available_bytes == 0 || self.needed_bytes <= self.available_bytes
    }
}

/// The precision a run actually uses: the requested one when this build
/// supports it, f32 otherwise.
pub open spec fn effective_precision(p: Precision) -> Precision {
    if p == Precision::F32 {
        p
    } else {
        Precision::F32
    }
}

/// Rough memory needed to train a model of `shape` on batches of
/// `batch_size` full-length sequences at `precision`, compared with free
/// RAM (this library has no GPU backend, so the device is always RAM).
pub fn estimate_memory(
    shape: &ModelShape,
    batch_size: usize,
    precision: Precision,
    budget: &HardwareBudget,
) -> (e: MemoryEstimate)
    requires
        training_memory_fits(*shape, batch_size as int, shape.max_position_embeddings as int, 4),
    ensures
        e.needed_bytes == training_memory(
            *shape,
            batch_size as int,
            shape.max_position_embeddings as int,
            4,
        ),
        e.available_bytes == budget.ram_free_bytes,
        e.device@ == "RAM"@,
{
    let p = if precision.is_supported() {
        precision
    } else {
        Precision::F32
    };
    let needed_bytes = shape.training_memory_bytes(
        batch_size,
        shape.max_position_embeddings,
        p.bytes_per_elem(),
    );
    MemoryEstimate { needed_bytes, available_bytes: budget.ram_free_bytes, device: "RAM" }
}

/// What a run will need when offloaded.
#[derive(Debug, Clone)]
pub struct OffloadPlan {
    /// Whether the run will be streamed layer by layer.
    pub streamed: bool,
    /// In-memory estimate (what `Auto` decides on).
    pub in_memory: MemoryEstimate,
    /// Peak compute-device memory while streaming (one stage at a time).
    pub device_bytes: u64,
    pub weights_bytes: u64,
    pub optimizer_bytes: u64,
    pub activation_bytes: u64,
    pub checkpoint_bytes: u64,
    /// Total offload + checkpoint disk space needed when streaming.
    pub disk_needed: u64,
    /// Free space on the drive holding the offload directory, if known.
    pub disk_free: Option<u64>,
    pub offload_dir: String,
}

impl OffloadPlan {
    /// Whether the disk holds what streaming needs; unknown free space counts
    /// as enough.
    pub fn disk_fits(&self) -> (r: bool)
        ensures
            r == (match self.disk_free {
                None => true,
                Some(free) => self.disk_needed <= free,
            }),
    {
        match self.disk_free {
            None => true,
            Some(free) => self.disk_needed <= free,
        }
    }
}

/// Optimizer steps a dataset of `total_tokens` tokens lasts when each step
/// consumes `batch_size` sequences of `max_seq_len` tokens (0 when a step
/// consumes nothing).
pub fn estimate_steps(total_tokens: u64, max_seq_len: usize, batch_size: usize) -> (n: u64)
    requires
        max_seq_len * batch_size <= u64::MAX,
    ensures
        n == (if max_seq_len * batch_size == 0 {
            0
        } else {
            total_tokens as int / (max_seq_len * batch_size)
        }),
{
    let tokens_per_step = max_seq_len as u64 * batch_size as u64;
    if tokens_per_step == 0 {
        return 0;
    }
    total_tokens / tokens_per_step
}

/// Sharded checkpoints a streamed run keeps.
pub const KEPT_CHECKPOINTS: u64 = 2;

/// Logits of one head chunk while streaming.
pub const HEAD_CHUNK: u64 = 67108864;

/// `n`, or 1 when it is 0.
pub open spec fn at_least_one(n: int) -> int {
    if n >= 1 {
        n
    } else {
        1
    }
}

/// The larger of `a` and `b`.
pub open spec fn larger(a: int, b: int) -> int {
    if a >= b {
        a
    } else {
        b
    }
}

/// Parameters of one decoder layer, on average: all but the embedding, the
/// head and the final norm, spread over the layers.
pub open spec fn mean_layer_params(s: ModelShape) -> int {
    (param_total(s) - 2 * s.vocab_size * s.hidden_size - s.hidden_size) / at_least_one(
        s.num_hidden_layers as int,
    )
}

/// Experts a token passes through in a layer.
pub open spec fn active_experts(s: ModelShape) -> int {
    if s.num_experts > 0 {
        s.num_experts_per_tok as int
    } else {
        1
    }
}

/// Activations of one layer for one micro-batch of `batch` sequences.
pub open spec fn layer_activations(s: ModelShape, batch: int) -> int {
    let b = at_least_one(batch);
    let seq = s.max_position_embeddings as int;
    b * seq * (16 * s.hidden_size + 3 * s.intermediate_size * active_experts(s)) + b * s.num_attention_heads
        * seq * seq * 3
}

/// Peak device memory while streaming: one stage's weights and gradients,
/// and one layer's activations or two head chunks.
pub open spec fn streamed_device_bytes(s: ModelShape, batch: int) -> int {
    12 * larger(mean_layer_params(s), s.vocab_size * s.hidden_size) + 4 * larger(
        layer_activations(s, batch),
        HEAD_CHUNK * 2,
    )
}

/// Activations kept on disk: every layer's input for every micro-batch.
pub open spec fn offloaded_activations(s: ModelShape, batch: int, micro: int) -> int {
    (s.num_hidden_layers + 1) * at_least_one(micro) * at_least_one(batch) * s.max_position_embeddings
        * s.hidden_size * 4
}

/// Every quantity `offload_plan` computes fits in a `u64`, each product and
/// sum as it is formed.
pub open spec fn offload_plan_fits(s: ModelShape, batch: int, micro: int, optimizer_bytes: int) -> bool {
    let h = s.hidden_size as int;
    let v = s.vocab_size as int;
    let b = at_least_one(batch);
    let m = at_least_one(micro);
    let seq = s.max_position_embeddings as int;
    let total = param_total(s);
    let weights = 4 * total;
    &&& 2 * v <= u64::MAX
    &&& 2 * v * h <= u64::MAX
    &&& b * seq <= u64::MAX
    &&& 16 * h <= u64::MAX
    &&& 3 * s.intermediate_size <= u64::MAX
    &&& 3 * s.intermediate_size * active_experts(s) <= u64::MAX
    &&& 16 * h + 3 * s.intermediate_size * active_experts(s) <= u64::MAX
    &&& b * seq * (16 * h + 3 * s.intermediate_size * active_experts(s)) <= u64::MAX
    &&& b * s.num_attention_heads <= u64::MAX
    &&& b * s.num_attention_heads * seq <= u64::MAX
    &&& b * s.num_attention_heads * seq * seq <= u64::MAX
    &&& b * s.num_attention_heads * seq * seq * 3 <= u64::MAX
    &&& layer_activations(s, batch) <= u64::MAX
    &&& 12 * larger(mean_layer_params(s), v * h) <= u64::MAX
    &&& streamed_device_bytes(s, batch) <= u64::MAX
    &&& weights <= u64::MAX
    &&& s.num_hidden_layers + 1 <= u64::MAX
    &&& (s.num_hidden_layers + 1) * m <= u64::MAX
    &&& (s.num_hidden_layers + 1) * m * b <= u64::MAX
    &&& (s.num_hidden_layers + 1) * m * b * seq <= u64::MAX
    &&& (s.num_hidden_layers + 1) * m * b * seq * h <= u64::MAX
    &&& (s.num_hidden_layers + 1) * m * b * seq * h * 4 <= u64::MAX
    &&& KEPT_CHECKPOINTS * (weights + optimizer_bytes) <= u64::MAX
    &&& weights + optimizer_bytes + offloaded_activations(s, batch, micro) + KEPT_CHECKPOINTS * (weights
        + optimizer_bytes) <= u64::MAX
}

/// Plans a run of a model of `shape` on batches of `batch_size`, with
/// `grad_accum_steps` micro-batches per step: the in-memory estimate, whether
/// to stream, and what streaming needs on the device and on disk.
/// `optimizer_bytes` is the optimizer's state for all parameters,
/// `offload_dir` where tensors are offloaded, and `disk_free` the free space
/// on its drive, if known.
pub fn offload_plan(
    shape: &ModelShape,
    batch_size: usize,
    grad_accum_steps: usize,
    precision: Precision,
    offload: OffloadMode,
    budget: &HardwareBudget,
    optimizer_bytes: u64,
    offload_dir: String,
    disk_free: Option<u64>,
) -> (p: OffloadPlan)
    requires
        param_count_fits(*shape),
        training_memory_fits(*shape, batch_size as int, shape.max_position_embeddings as int, 4),
        offload_plan_fits(*shape, batch_size as int, grad_accum_steps as int, optimizer_bytes as int),
    ensures
        p.in_memory.needed_bytes == training_memory(
            *shape,
            batch_size as int,
            shape.max_position_embeddings as int,
            4,
        ),
        p.in_memory.available_bytes == budget.ram_free_bytes,
        p.streamed == (match offload {
            OffloadMode::On => true,
            OffloadMode::Off => false,
            OffloadMode::Auto => !(p.in_memory.available_bytes == 0 || p.in_memory.needed_bytes
                <= p.in_memory.available_bytes),
        }),
        p.device_bytes == streamed_device_bytes(*shape, batch_size as int),
        p.weights_bytes == 4 * param_total(*shape),
        p.optimizer_bytes == optimizer_bytes,
        p.activation_bytes == offloaded_activations(*shape, batch_size as int, grad_accum_steps as int),
        p.checkpoint_bytes == KEPT_CHECKPOINTS * (p.weights_bytes + optimizer_bytes),
        p.disk_needed == p.weights_bytes + optimizer_bytes + p.activation_bytes + p.checkpoint_bytes,
        p.disk_free == disk_free,
        p.offload_dir@ == offload_dir@,
{
    let in_memory = estimate_memory(shape, batch_size, precision, budget);
    let streamed = streams(offload, &in_memory);
    let total = shape.param_count();
    proof {
        crate::model::lemma_products_nonneg(*shape);
        crate::model::lemma_layers_params_monotone(*shape, 0, shape.num_hidden_layers as int);
        let vv = shape.vocab_size as int;
        let hh = shape.hidden_size as int;
        assert(2 * vv * hh == vv * hh + hh * vv) by (nonlinear_arith);
    }
    let h = shape.hidden_size as u64;
    let vocab = shape.vocab_size as u64;
    let layers: u64 = if shape.num_hidden_layers >= 1 {
        shape.num_hidden_layers as u64
    } else {
        1
    };
    let layer_params_n = (total - 2 * vocab * h - h) / layers;
    let embed = vocab * h;
    let largest_stage = if layer_params_n >= embed {
        layer_params_n
    } else {
        embed
    };
    let batch: u64 = if batch_size >= 1 {
        batch_size as u64
    } else {
        1
    };
    let seq = shape.max_position_embeddings as u64;
    let k: u64 = if shape.num_experts > 0 {
        shape.num_experts_per_tok as u64
    } else {
        1
    };
    let linear = batch * seq * (16 * h + 3 * (shape.intermediate_size as u64) * k);
    let attn = batch * (shape.num_attention_heads as u64) * seq * seq * 3;
    let layer_acts = linear + attn;
    let acts_or_chunks = if layer_acts >= HEAD_CHUNK * 2 {
        layer_acts
    } else {
        HEAD_CHUNK * 2
    };
    let device_bytes = 12 * largest_stage + 4 * acts_or_chunks;
    let weights_bytes = 4 * total;
    let micro: u64 = if grad_accum_steps >= 1 {
        grad_accum_steps as u64
    } else {
        1
    };
    let activation_bytes = (shape.num_hidden_layers as u64 + 1) * micro * batch * seq * h * 4;
    let checkpoint_bytes = KEPT_CHECKPOINTS * (weights_bytes + optimizer_bytes);
    let disk_needed = weights_bytes + optimizer_bytes + activation_bytes + checkpoint_bytes;
    OffloadPlan {
        streamed,
        in_memory,
        device_bytes,
        weights_bytes,
        optimizer_bytes,
        activation_bytes,
        checkpoint_bytes,
        disk_needed,
        disk_free,
        offload_dir,
    }
}

/// Whether the run is streamed: always with `On`, never with `Off`, and with
/// `Auto` when the in-memory estimate does not fit.
pub fn streams(mode: OffloadMode, in_memory: &MemoryEstimate) -> (r: bool)
    ensures
        r == (match mode {
            OffloadMode::On => true,
            OffloadMode::Off => false,
            OffloadMode::Auto => !(in_memory.available_bytes == 0 || in_memory.needed_bytes
                <= in_memory.available_bytes),
        }),
{
    match mode {
        OffloadMode::On => true,
        OffloadMode::Off => false,
        OffloadMode::Auto => !in_memory.fits(),
    }
}

/// `path` joined onto `base` the way `Path::join` does on Unix: an absolute
/// `path` replaces `base`; otherwise one `/` separates them.
pub open spec fn path_join(base: Seq<char>, path: Seq<char>) -> Seq<char> {
    if path.len() > 0 && path[0] == '/' {
        path
    } else if base.len() == 0 {
        path
    } else if base.last() == '/' {
        base + path
    } else {
        base + "/"@ + path
    }
}

/// `path` joined onto `base` (`Path::join` on Unix).
pub fn join_path(base: &str, path: &str) -> (r: String)
    ensures
        r@ == path_join(base@, path@),
{
    let np = path.unicode_len();
    if np > 0 && path.get_char(0) == '/' {
        return path.to_owned();
    }
    let nb = base.unicode_len();
    if nb == 0 {
        return path.to_owned();
    }
    let mut r = base.to_owned();
    if base.get_char(nb - 1) != '/' {
        r.append("/");
    }
    r.append(path);
    r
}

/// Where a run offloads its tensors: the tier's offload path, taken relative
/// to the run's output directory unless it is absolute.
pub fn offload_dir(output_dir: &str, disk_offload_path: &str) -> (r: String)
    ensures
        r@ == path_join(output_dir@, disk_offload_path@),
{
    join_path(output_dir, disk_offload_path)
}

/// Name of the stage that holds the optimizer state of `stage`.
pub fn optim_stage(stage: &str) -> (r: String)
    ensures
        r@ == "optim."@ + stage@,
{
    let mut r = "optim.".to_owned();
    r.append(stage);
    r
}

/// Key of the activations of `layer` for micro-batch `micro`.
pub open spec fn act_key_name(layer: nat, micro: nat) -> Seq<char> {
    "act."@ + padded_decimal(layer, 4) + "."@ + padded_decimal(micro, 4)
}

/// Key of the activations of `layer` for micro-batch `micro`.
pub fn act_key(layer: usize, micro: usize) -> (r: String)
    ensures
        r@ == act_key_name(layer as nat, micro as nat),
{
    let mut r = "act.".to_owned();
    let l = padded_usize(layer, 4);
    r.append(l.as_str());
    r.append(".");
    let m = padded_usize(micro, 4);
    r.append(m.as_str());
    r
}

/// `(start, len)` ranges from `start` on, in steps of `step`, each `size`
/// long but cut at `total`.
pub open spec fn ranges_from(start: nat, total: nat, step: nat, size: nat) -> Seq<(nat, nat)>
    decreases total - start,
{
    if start >= total || step == 0 {
        Seq::empty()
    } else {
        seq![(start, if size < total - start { size } else { (total - start) as nat })] + (
        if start + step < total {
            ranges_from(start + step, total, step, size)
        } else {
            Seq::empty()
        })
    }
}

/// The ranges `chunks` returns: starts `0, size, 2·size, …` below `total`
/// (steps of 1 when `size` is 0), each `size` long but cut at `total`.
pub open spec fn chunk_ranges(total: nat, size: nat) -> Seq<(nat, nat)> {
    ranges_from(0, total, if size > 0 { size } else { 1 }, size)
}

/// As plain numbers.
pub open spec fn pairs_view(v: Seq<(usize, usize)>) -> Seq<(nat, nat)> {
    v.map_values(|p: (usize, usize)| (p.0 as nat, p.1 as nat))
}

/// `(start, len)` ranges covering `0..total` in steps of `size`.
pub fn chunks(total: usize, size: usize) -> (r: Vec<(usize, usize)>)
    ensures
        pairs_view(r@) == chunk_ranges(total as nat, size as nat),
{
    let step: usize = if size > 0 {
        size
    } else {
        1
    };
    let mut r: Vec<(usize, usize)> = Vec::new();
    let mut start: usize = 0;
    if total == 0 {
        return r;
    }
    while start < total
        invariant_except_break
            start < total,
            pairs_view(r@) + ranges_from(start as nat, total as nat, step as nat, size as nat)
                == chunk_ranges(total as nat, size as nat),
        invariant
            step > 0,
            step == (if size > 0 { size } else { 1 }),
        ensures
            pairs_view(r@) == chunk_ranges(total as nat, size as nat),
        decreases total - start,
    {
        let len = if size < total - start {
            size
        } else {
            total - start
        };
        let ghost before = pairs_view(r@);
        r.push((start, len));
        proof {
            assert(pairs_view(r@) =~= before.push((start as nat, len as nat)));
            let rest = if start + step < total {
                ranges_from((start + step) as nat, total as nat, step as nat, size as nat)
            } else {
                Seq::empty()
            };
            assert(ranges_from(start as nat, total as nat, step as nat, size as nat) =~= seq![
                (start as nat, len as nat),
            ] + rest);
            assert(before + (seq![(start as nat, len as nat)] + rest) =~= pairs_view(r@) + rest);
        }
        if total - start <= step {
            proof {
                assert(pairs_view(r@) + Seq::<(nat, nat)>::empty() =~= pairs_view(r@));
            }
            break;
        }
        start = start + step;
    }
    r
}

/// Number of non-padding ids in `s`.
pub open spec fn non_pad_count(s: Seq<u32>) -> nat
    decreases s.len(),
{
    if s.len() == 0 {
        0
    } else {
        non_pad_count(s.drop_last()) + (if s.last() != PAD_ID {
            1nat
        } else {
            0nat
        })
    }
}

/// The positions `start..start + len` of `row` that it has.
pub open spec fn window(row: Seq<u32>, start: nat, len: nat) -> Seq<u32> {
    let a = if start < row.len() { start } else { row.len() };
    let b = if start + len < row.len() { start + len } else { row.len() };
    row.subrange(a as int, b as int)
}

/// Non-padding labels at positions `start..start + len` over all rows.
pub open spec fn window_targets(rows: Seq<Vec<u32>>, start: nat, len: nat) -> nat
    decreases rows.len(),
{
    if rows.len() == 0 {
        0
    } else {
        window_targets(rows.drop_last(), start, len) + non_pad_count(window(rows.last()@, start, len))
    }
}

/// Total number of ids over all rows.
pub open spec fn total_len(rows: Seq<Vec<u32>>) -> nat
    decreases rows.len(),
{
    if rows.len() == 0 {
        0
    } else {
        total_len(rows.drop_last()) + rows.last()@.len()
    }
}

proof fn lemma_non_pad_count_le(s: Seq<u32>)
    ensures
        non_pad_count(s) <= s.len(),
    decreases s.len(),
{
    if s.len() > 0 {
        lemma_non_pad_count_le(s.drop_last());
    }
}

proof fn lemma_window_targets_le(rows: Seq<Vec<u32>>, start: nat, len: nat)
    ensures
        window_targets(rows, start, len) <= total_len(rows),
    decreases rows.len(),
{
    if rows.len() > 0 {
        lemma_window_targets_le(rows.drop_last(), start, len);
        lemma_non_pad_count_le(window(rows.last()@, start, len));
    }
}

/// Non-padding labels at positions `start..start + len` of `batch`: the
/// number of tokens a chunk of the head is trained on.
pub fn target_count(batch: &DataBatch, start: usize, len: usize) -> (n: u64)
    requires
        total_len(batch.labels@) <= u64::MAX,
    ensures
        n == window_targets(batch.labels@, start as nat, len as nat),
{
    let rows = &batch.labels;
    let mut n: u64 = 0;
    let mut k: usize = 0;
    proof {
        lemma_window_targets_le(rows@, start as nat, len as nat);
    }
    while k < rows.len()
        invariant
            k <= rows@.len(),
            total_len(rows@) <= u64::MAX,
            n == window_targets(rows@.take(k as int), start as nat, len as nat),
            n <= total_len(rows@.take(k as int)),
        decreases rows@.len() - k,
    {
        let row = &rows[k];
        let a = if start < row.len() {
            start
        } else {
            row.len()
        };
        let b = if len < row.len() - a {
            a + len
        } else {
            row.len()
        };
        let mut c: u64 = 0;
        let mut j: usize = a;
        let ghost w = window(row@, start as nat, len as nat);
        assert(w =~= row@.subrange(a as int, b as int));
        while j < b
            invariant
                a <= j <= b <= row@.len(),
                w == row@.subrange(a as int, b as int),
                c == non_pad_count(row@.subrange(a as int, j as int)),
                c <= j - a,
            decreases b - j,
        {
            proof {
                assert(row@.subrange(a as int, j + 1).drop_last() =~= row@.subrange(a as int, j as int));
            }
            if row[j] != PAD_ID {
                c = c + 1;
            }
            j = j + 1;
        }
        proof {
            let t = rows@.take(k as int + 1);
            assert(t.drop_last() =~= rows@.take(k as int));
            assert(t.last() == rows@[k as int]);
            lemma_window_targets_le(t, start as nat, len as nat);
            assert(rows@ =~= t + rows@.skip(k + 1));
            lemma_total_len_prefix(rows@, k as int + 1);
        }
        n = n + c;
        k = k + 1;
    }
    assert(rows@.take(rows@.len() as int) =~= rows@);
    n
}

proof fn lemma_total_len_prefix(rows: Seq<Vec<u32>>, k: int)
    requires
        0 <= k <= rows.len(),
    ensures
        total_len(rows.take(k)) <= total_len(rows),
    decreases rows.len(),
{
    if k < rows.len() {
        assert(rows.drop_last().take(k) =~= rows.take(k));
        lemma_total_len_prefix(rows.drop_last(), k);
    } else {
        assert(rows.take(k) =~= rows);
    }
}

} // verus!
