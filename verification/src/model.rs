//! Shape of the Quark model: its integer hyper-parameters, how many
//! parameters and how much training memory a shape needs, and the names of
//! the stages the model is stored and streamed in.

use vstd::prelude::*;

use crate::text::{padded_decimal, padded_usize};

verus! {

/// The model presets offered for training.
#[derive(Debug, Clone, Copy, PartialEq, Eq, Structural)]
pub enum ModelPreset {
    QuarkTiny,
    QuarkSmall,
    Quark1B,
    Quark3B,
    Quark7B,
    Quark20B,
    Quark30B,
    Quark48B,
    Quark74B,
    Quark120B,
    Quark249B,
    Quark300B,
    Quark400B,
    Custom,
}

/// The integer hyper-parameters of a model configuration (the floating-point
/// ones, the norm epsilon and the rotary base, play no part in sizes).
#[derive(Debug, Clone, Copy, PartialEq, Eq, Structural)]
pub struct ModelShape {
    pub vocab_size: usize,
    pub hidden_size: usize,
    pub num_hidden_layers: usize,
    pub num_attention_heads: usize,
    pub num_key_value_heads: usize,
    pub intermediate_size: usize,
    pub max_position_embeddings: usize,
    pub num_experts: usize,
    pub num_experts_per_tok: usize,
    pub num_moe_layers: usize,
    pub moe_layer_freq: usize,
    pub tie_word_embeddings: bool,
}

/// Whether decoder layer `i` is a mixture-of-experts layer.
pub open spec fn is_moe(s: ModelShape, i: int) -> bool {
    s.moe_layer_freq > 0 && i % (s.moe_layer_freq as int) == 0
}

/// Width of one attention head.
pub open spec fn head_dim(s: ModelShape) -> int {
    s.hidden_size as int / (if s.num_attention_heads > 1 {
        s.num_attention_heads as int
    } else {
        1
    })
}

/// Width of all query heads together.
pub open spec fn q_width(s: ModelShape) -> int {
    s.num_attention_heads * head_dim(s)
}

/// Width of all key (or value) heads together.
pub open spec fn kv_width(s: ModelShape) -> int {
    s.num_key_value_heads * head_dim(s)
}

/// Parameters of one attention block.
pub open spec fn attn_params(s: ModelShape) -> int {
    s.hidden_size * q_width(s) + 2 * s.hidden_size * kv_width(s) + q_width(s) * s.hidden_size
}

/// Parameters of one dense feed-forward block.
pub open spec fn ffn_params(s: ModelShape) -> int {
    3 * s.hidden_size * s.intermediate_size
}

/// Parameters of one mixture-of-experts block: the router and the experts.
pub open spec fn moe_params(s: ModelShape) -> int {
    s.hidden_size * s.num_experts + s.num_experts * ffn_params(s)
}

/// Parameters of decoder layer `i`.
pub open spec fn layer_params(s: ModelShape, i: int) -> int {
    attn_params(s) + 2 * s.hidden_size + (if is_moe(s, i) {
        moe_params(s)
    } else {
        ffn_params(s)
    })
}

/// Parameters of the first `n` decoder layers.
pub open spec fn layers_params(s: ModelShape, n: int) -> int
    decreases n,
{
    if n <= 0 {
        0
    } else {
        layers_params(s, n - 1) + layer_params(s, n - 1)
    }
}

/// The exact number of trainable parameters of a model of shape `s`: token
/// embedding, decoder layers, untied LM head and final norm.
pub open spec fn param_total(s: ModelShape) -> int {
    s.vocab_size * s.hidden_size + layers_params(s, s.num_hidden_layers as int) + s.hidden_size
        * s.vocab_size + s.hidden_size
}

/// Every quantity `param_count` computes fits in a `u64`.
pub open spec fn param_count_fits(s: ModelShape) -> bool {
    let h = s.hidden_size as int;
    &&& 3 * h <= u64::MAX
    &&& q_width(s) <= u64::MAX
    &&& kv_width(s) <= u64::MAX
    &&& h * q_width(s) + 2 * h * kv_width(s) + q_width(s) * h <= u64::MAX
    &&& 3 * h * s.intermediate_size <= u64::MAX
    &&& h * s.num_experts + s.num_experts * ffn_params(s) <= u64::MAX
    &&& param_total(s) <= u64::MAX
}

pub(crate) proof fn lemma_products_nonneg(s: ModelShape)
    ensures
        attn_params(s) >= 0,
        ffn_params(s) >= 0,
        moe_params(s) >= 0,
        s.hidden_size * q_width(s) >= 0,
        2 * s.hidden_size * kv_width(s) >= 0,
        q_width(s) * s.hidden_size >= 0,
        s.num_experts * ffn_params(s) >= 0,
        s.hidden_size * s.num_experts >= 0,
        s.vocab_size * s.hidden_size >= 0,
        s.hidden_size * s.vocab_size >= 0,
        head_dim(s) >= 0,
{
    let h = s.hidden_size as int;
    assert(head_dim(s) >= 0);
    let d = head_dim(s);
    assert(q_width(s) >= 0) by (nonlinear_arith)
        requires
            d >= 0,
            q_width(s) == s.num_attention_heads * d,
    ;
    assert(kv_width(s) >= 0) by (nonlinear_arith)
        requires
            d >= 0,
            kv_width(s) == s.num_key_value_heads * d,
    ;
    let q = q_width(s);
    let kv = kv_width(s);
    assert(h * q >= 0 && 2 * h * kv >= 0 && q * h >= 0) by (nonlinear_arith)
        requires
            h >= 0,
            q >= 0,
            kv >= 0,
    ;
    let i = s.intermediate_size as int;
    assert(3 * h * i >= 0) by (nonlinear_arith)
        requires
            h >= 0,
            i >= 0,
    ;
    let f = ffn_params(s);
    let e = s.num_experts as int;
    assert(h * e >= 0 && e * f >= 0) by (nonlinear_arith)
        requires
            h >= 0,
            e >= 0,
            f >= 0,
    ;
    let v = s.vocab_size as int;
    assert(v * h >= 0 && h * v >= 0) by (nonlinear_arith)
        requires
            h >= 0,
            v >= 0,
    ;
}

pub(crate) proof fn lemma_layers_params_monotone(s: ModelShape, a: int, b: int)
    requires
        0 <= a <= b,
    ensures
        0 <= layers_params(s, a) <= layers_params(s, b),
    decreases b,
{
    lemma_products_nonneg(s);
    if a < b {
        lemma_layers_params_monotone(s, a, b - 1);
    } else if a > 0 {
        lemma_layers_params_monotone(s, 0, a - 1);
    }
}

/// Experts that run per token in decoder layer `i`.
pub open spec fn active_experts(s: ModelShape, i: int) -> int {
    if is_moe(s, i) {
        s.num_experts_per_tok as int
    } else {
        1
    }
}

/// Activation elements of the linear layers of layer `i` for `tokens` tokens.
pub open spec fn linear_acts(s: ModelShape, i: int, tokens: int) -> int {
    tokens * (16 * s.hidden_size + 3 * s.intermediate_size * active_experts(s, i))
}

/// Attention-score elements of one layer (three copies are kept).
pub open spec fn attn_acts(s: ModelShape, batch: int, seq: int) -> int {
    batch * s.num_attention_heads * seq * seq * 3
}

/// Activation elements of the first `n` layers.
pub open spec fn layers_acts(s: ModelShape, n: int, batch: int, seq: int) -> int
    decreases n,
{
    if n <= 0 {
        0
    } else {
        layers_acts(s, n - 1, batch, seq) + linear_acts(s, n - 1, batch * seq) + attn_acts(
            s,
            batch,
            seq,
        )
    }
}

/// Rough peak memory for training, in bytes: weights, gradients (plus an
/// accumulation copy) and AdamW moments, plus the activations kept for the
/// backward pass and the logits.
pub open spec fn training_memory(s: ModelShape, batch: int, seq: int, bytes_per_elem: int) -> int {
    param_total(s) * 5 * bytes_per_elem + (layers_acts(s, s.num_hidden_layers as int, batch, seq)
        + batch * seq * s.vocab_size * 3) * bytes_per_elem
}

/// Every quantity `training_memory_bytes` computes fits in its integer type.
pub open spec fn training_memory_fits(s: ModelShape, batch: int, seq: int, bytes_per_elem: int) -> bool {
    let tokens = batch * seq;
    let h = s.hidden_size as int;
    &&& param_count_fits(s)
    &&& param_total(s) * 5 <= u64::MAX
    &&& param_total(s) * 5 * bytes_per_elem <= u64::MAX
    &&& tokens <= usize::MAX
    &&& 16 * h <= u64::MAX
    &&& forall|i: int|
        0 <= i < s.num_hidden_layers ==> {
            &&& 3 * s.intermediate_size <= u64::MAX
            &&& #[trigger] (3 * s.intermediate_size * active_experts(s, i)) <= u64::MAX
            &&& 16 * h + 3 * s.intermediate_size * active_experts(s, i) <= u64::MAX
            &&& linear_acts(s, i, tokens) <= u64::MAX
            &&& batch * s.num_attention_heads <= usize::MAX
            &&& batch * s.num_attention_heads * seq <= usize::MAX
            &&& batch * s.num_attention_heads * seq * seq <= usize::MAX
        }
    &&& layers_acts(s, s.num_hidden_layers as int, batch, seq) <= u64::MAX
    &&& tokens * s.vocab_size <= u64::MAX
    &&& tokens * s.vocab_size * 3 <= u64::MAX
    &&& layers_acts(s, s.num_hidden_layers as int, batch, seq) + tokens * s.vocab_size * 3
        <= u64::MAX
    &&& (layers_acts(s, s.num_hidden_layers as int, batch, seq) + tokens * s.vocab_size * 3)
        * bytes_per_elem <= u64::MAX
    &&& training_memory(s, batch, seq, bytes_per_elem) <= u64::MAX
}

proof fn lemma_layer_acts_nonneg(s: ModelShape, i: int, batch: nat, seq: nat)
    ensures
        linear_acts(s, i, (batch * seq) as int) >= 0,
        attn_acts(s, batch as int, seq as int) >= 0,
{
    let t = (batch * seq) as int;
    let h = s.hidden_size as int;
    let w = 3 * s.intermediate_size * active_experts(s, i);
    assert(w >= 0) by (nonlinear_arith)
        requires
            w == 3 * s.intermediate_size * active_experts(s, i),
            active_experts(s, i) >= 0,
    ;
    assert(linear_acts(s, i, t) >= 0) by (nonlinear_arith)
        requires
            t >= 0,
            w >= 0,
            h >= 0,
            linear_acts(s, i, t) == t * (16 * h + w),
    ;
    let hd = s.num_attention_heads as int;
    assert(attn_acts(s, batch as int, seq as int) >= 0) by (nonlinear_arith)
        requires
            attn_acts(s, batch as int, seq as int) == batch * hd * seq * seq * 3,
            hd >= 0,
    ;
}

proof fn lemma_layers_acts_monotone(s: ModelShape, a: int, b: int, batch: nat, seq: nat)
    requires
        0 <= a <= b,
    ensures
        0 <= layers_acts(s, a, batch as int, seq as int) <= layers_acts(s, b, batch as int, seq as int),
    decreases b,
{
    if a < b {
        lemma_layers_acts_monotone(s, a, b - 1, batch, seq);
        lemma_layer_acts_nonneg(s, b - 1, batch, seq);
    } else if a > 0 {
        lemma_layers_acts_monotone(s, a - 1, a - 1, batch, seq);
        lemma_layer_acts_nonneg(s, a - 1, batch, seq);
    }
}

impl ModelShape {
    /// Whether decoder layer `i` is a mixture-of-experts layer.
    pub fn is_moe_layer(&self, i: usize) -> (r: bool)
        ensures
            r == is_moe(*self, i as int),
    {
        self.moe_layer_freq > 0 && i % self.moe_layer_freq == 0
    }

    /// The exact number of trainable parameters the model allocates.
    pub fn param_count(&self) -> (n: u64)
        requires
            param_count_fits(*self),
        ensures
            n == param_total(*self),
    {
        proof {
            lemma_products_nonneg(*self);
            lemma_layers_params_monotone(*self, 0, self.num_hidden_layers as int);
        }
        let h = self.hidden_size as u64;
        let heads: usize = if self.num_attention_heads > 1 {
            self.num_attention_heads
        } else {
            1
        };
        let head_dim = (self.hidden_size / heads) as u64;
        let q = self.num_attention_heads as u64 * head_dim;
        let kv = self.num_key_value_heads as u64 * head_dim;
        let attn = h * q + 2 * h * kv + q * h;
        let ffn = 3 * h * self.intermediate_size as u64;
        let moe = h * self.num_experts as u64 + self.num_experts as u64 * ffn;
        let norms = 2 * h;
        let mut layers: u64 = 0;
        let mut i: usize = 0;
        while i < self.num_hidden_layers
            invariant
                i <= self.num_hidden_layers,
                param_count_fits(*self),
                layers == layers_params(*self, i as int),
                attn == attn_params(*self),
                ffn == ffn_params(*self),
                moe == moe_params(*self),
                norms == 2 * self.hidden_size,
                layers_params(*self, self.num_hidden_layers as int) <= u64::MAX,
            decreases self.num_hidden_layers - i,
        {
            proof {
                lemma_layers_params_monotone(*self, i as int + 1, self.num_hidden_layers as int);
                lemma_products_nonneg(*self);
            }
            let per = if self.is_moe_layer(i) {
                moe
            } else {
                ffn
            };
            layers = layers + (attn + norms + per);
            i = i + 1;
        }
        let vocab = self.vocab_size as u64;
        vocab * h + layers + h * vocab + h
    }

    /// Rough peak memory for training with `batch` sequences of `seq`
    /// tokens and `bytes_per_elem` bytes per element (4 for f32, 2 for
    /// bf16).
    pub fn training_memory_bytes(&self, batch: usize, seq: usize, bytes_per_elem: u64) -> (n: u64)
        requires
            training_memory_fits(*self, batch as int, seq as int, bytes_per_elem as int),
        ensures
            n == training_memory(*self, batch as int, seq as int, bytes_per_elem as int),
    {
        let state = self.param_count() * 5 * bytes_per_elem;
        let tokens = (batch * seq) as u64;
        let h = self.hidden_size as u64;
        let mut per_layer: u64 = 0;
        let mut i: usize = 0;
        proof {
            lemma_layers_acts_monotone(*self, 0, self.num_hidden_layers as int, batch as nat, seq as nat);
        }
        while i < self.num_hidden_layers
            invariant
                i <= self.num_hidden_layers,
                training_memory_fits(*self, batch as int, seq as int, bytes_per_elem as int),
                tokens == batch * seq,
                h == self.hidden_size,
                per_layer == layers_acts(*self, i as int, batch as int, seq as int),
            decreases self.num_hidden_layers - i,
        {
            proof {
                lemma_layers_acts_monotone(
                    *self,
                    i as int + 1,
                    self.num_hidden_layers as int,
                    batch as nat,
                    seq as nat,
                );
                assert(3 * self.intermediate_size * active_experts(*self, i as int) <= u64::MAX);
            }
            let experts: usize = if self.is_moe_layer(i) {
                self.num_experts_per_tok
            } else {
                1
            };
            let linear = tokens * (16 * h + 3 * self.intermediate_size as u64 * experts as u64);
            let attn = (batch * self.num_attention_heads * seq * seq) as u64 * 3;
            per_layer = per_layer + (linear + attn);
            i = i + 1;
        }
        let logits = tokens * self.vocab_size as u64 * 3;
        state + (per_layer + logits) * bytes_per_elem
    }
}

/// Stage name of the token embedding.
pub const EMBED_STAGE: &'static str = "embed";

/// Stage name of the final norm and LM head.
pub const HEAD_STAGE: &'static str = "head";

/// Stage name of decoder layer `i`: `layer.` and `i` in at least four digits.
pub open spec fn layer_stage_name(i: nat) -> Seq<char> {
    "layer."@ + padded_decimal(i, 4)
}

/// Stage name of decoder layer `i`.
pub fn layer_stage(i: usize) -> (s: String)
    ensures
        s@ == layer_stage_name(i as nat),
{
    let mut s = "layer.".to_owned();
    let d = padded_usize(i, 4);
    s.append(d.as_str());
    s
}

/// Every stage name of a model with `layers` decoder layers, in forward
/// order: the embedding, each layer, the head.
pub fn stage_names(layers: usize) -> (names: Vec<String>)
    requires
        layers + 2 <= usize::MAX,
    ensures
        names@.len() == layers + 2,
        names@[0]@ == "embed"@,
        forall|i: int| 0 <= i < layers ==> #[trigger] names@[i + 1]@ == layer_stage_name(i as nat),
        names@[layers + 1]@ == "head"@,
{
    let mut names: Vec<String> = Vec::new();
    names.push("embed".to_owned());
    let mut i: usize = 0;
    while i < layers
        invariant
            i <= layers,
            names@.len() == i + 1,
            names@[0]@ == "embed"@,
            forall|t: int| 0 <= t < i ==> #[trigger] names@[t + 1]@ == layer_stage_name(t as nat),
        decreases layers - i,
    {
        names.push(layer_stage(i));
        i = i + 1;
    }
    names.push("head".to_owned());
    names
}


/// The shape of each preset; a custom model has none.
pub open spec fn preset_shape(p: ModelPreset) -> Option<ModelShape> {
    match p {
        ModelPreset::QuarkTiny => Some(ModelShape {
            vocab_size: 8000,
            hidden_size: 256,
            num_hidden_layers: 6,
            num_attention_heads: 4,
            num_key_value_heads: 2,
            intermediate_size: 704,
            max_position_embeddings: 512,
            num_experts: 4,
            num_experts_per_tok: 2,
            num_moe_layers: 2,
            moe_layer_freq: 3,
            tie_word_embeddings: false,
        }),
        ModelPreset::QuarkSmall => Some(ModelShape {
            vocab_size: 32000,
            hidden_size: 768,
            num_hidden_layers: 12,
            num_attention_heads: 12,
            num_key_value_heads: 4,
            intermediate_size: 2048,
            max_position_embeddings: 1024,
            num_experts: 8,
            num_experts_per_tok: 2,
            num_moe_layers: 3,
            moe_layer_freq: 4,
            tie_word_embeddings: false,
        }),
        ModelPreset::Quark1B => Some(ModelShape {
            vocab_size: 32000,
            hidden_size: 2048,
            num_hidden_layers: 16,
            num_attention_heads: 16,
            num_key_value_heads: 4,
            intermediate_size: 5632,
            max_position_embeddings: 4096,
            num_experts: 8,
            num_experts_per_tok: 2,
            num_moe_layers: 4,
            moe_layer_freq: 4,
            tie_word_embeddings: true,
        }),
        ModelPreset::Quark3B => Some(ModelShape {
            vocab_size: 32000,
            hidden_size: 3072,
            num_hidden_layers: 28,
            num_attention_heads: 24,
            num_key_value_heads: 8,
            intermediate_size: 8192,
            max_position_embeddings: 4096,
            num_experts: 8,
            num_experts_per_tok: 2,
            num_moe_layers: 6,
            moe_layer_freq: 4,
            tie_word_embeddings: true,
        }),
        ModelPreset::Quark7B => Some(ModelShape {
            vocab_size: 131072,
            hidden_size: 4096,
            num_hidden_layers: 32,
            num_attention_heads: 32,
            num_key_value_heads: 8,
            intermediate_size: 14336,
            max_position_embeddings: 8192,
            num_experts: 8,
            num_experts_per_tok: 2,
            num_moe_layers: 16,
            moe_layer_freq: 2,
            tie_word_embeddings: false,
        }),
        ModelPreset::Quark20B => Some(ModelShape {
            vocab_size: 131072,
            hidden_size: 5120,
            num_hidden_layers: 40,
            num_attention_heads: 40,
            num_key_value_heads: 8,
            intermediate_size: 16384,
            max_position_embeddings: 8192,
            num_experts: 8,
            num_experts_per_tok: 2,
            num_moe_layers: 20,
            moe_layer_freq: 2,
            tie_word_embeddings: false,
        }),
        ModelPreset::Quark30B => Some(ModelShape {
            vocab_size: 131072,
            hidden_size: 6144,
            num_hidden_layers: 48,
            num_attention_heads: 48,
            num_key_value_heads: 8,
            intermediate_size: 16384,
            max_position_embeddings: 8192,
            num_experts: 8,
            num_experts_per_tok: 2,
            num_moe_layers: 24,
            moe_layer_freq: 2,
            tie_word_embeddings: false,
        }),
        ModelPreset::Quark48B => Some(ModelShape {
            vocab_size: 131072,
            hidden_size: 7168,
            num_hidden_layers: 56,
            num_attention_heads: 56,
            num_key_value_heads: 8,
            intermediate_size: 20480,
            max_position_embeddings: 8192,
            num_experts: 16,
            num_experts_per_tok: 4,
            num_moe_layers: 28,
            moe_layer_freq: 2,
            tie_word_embeddings: false,
        }),
        ModelPreset::Quark74B => Some(ModelShape {
            vocab_size: 131072,
            hidden_size: 8192,
            num_hidden_layers: 80,
            num_attention_heads: 64,
            num_key_value_heads: 8,
            intermediate_size: 28672,
            max_position_embeddings: 8192,
            num_experts: 16,
            num_experts_per_tok: 4,
            num_moe_layers: 40,
            moe_layer_freq: 2,
            tie_word_embeddings: false,
        }),
        ModelPreset::Quark120B => Some(ModelShape {
            vocab_size: 131072,
            hidden_size: 10240,
            num_hidden_layers: 96,
            num_attention_heads: 80,
            num_key_value_heads: 8,
            intermediate_size: 36864,
            max_position_embeddings: 8192,
            num_experts: 16,
            num_experts_per_tok: 4,
            num_moe_layers: 48,
            moe_layer_freq: 2,
            tie_word_embeddings: false,
        }),
        ModelPreset::Quark249B => Some(ModelShape {
            vocab_size: 131072,
            hidden_size: 14336,
            num_hidden_layers: 96,
            num_attention_heads: 112,
            num_key_value_heads: 8,
            intermediate_size: 49152,
            max_position_embeddings: 8192,
            num_experts: 32,
            num_experts_per_tok: 8,
            num_moe_layers: 48,
            moe_layer_freq: 2,
            tie_word_embeddings: false,
        }),
        ModelPreset::Quark300B => Some(ModelShape {
            vocab_size: 131072,
            hidden_size: 14336,
            num_hidden_layers: 112,
            num_attention_heads: 112,
            num_key_value_heads: 8,
            intermediate_size: 57344,
            max_position_embeddings: 8192,
            num_experts: 32,
            num_experts_per_tok: 8,
            num_moe_layers: 56,
            moe_layer_freq: 2,
            tie_word_embeddings: false,
        }),
        ModelPreset::Quark400B => Some(ModelShape {
            vocab_size: 131072,
            hidden_size: 16384,
            num_hidden_layers: 128,
            num_attention_heads: 128,
            num_key_value_heads: 16,
            intermediate_size: 65536,
            max_position_embeddings: 8192,
            num_experts: 64,
            num_experts_per_tok: 8,
            num_moe_layers: 64,
            moe_layer_freq: 2,
            tie_word_embeddings: false,
        }),
        ModelPreset::Custom => None,
    }
}

impl ModelShape {
    /// About 12M parameters: trains on a laptop CPU in minutes to hours.
    pub fn quark_tiny() -> (s: Self)
        ensures
            preset_shape(ModelPreset::QuarkTiny) == Some(s),
    {
        ModelShape {
            vocab_size: 8000,
            hidden_size: 256,
            num_hidden_layers: 6,
            num_attention_heads: 4,
            num_key_value_heads: 2,
            intermediate_size: 704,
            max_position_embeddings: 512,
            num_experts: 4,
            num_experts_per_tok: 2,
            num_moe_layers: 2,
            moe_layer_freq: 3,
            tie_word_embeddings: false,
        }
    }

    /// About 220M parameters: realistic on a single consumer GPU.
    pub fn quark_small() -> (s: Self)
        ensures
            preset_shape(ModelPreset::QuarkSmall) == Some(s),
    {
        ModelShape {
            vocab_size: 32000,
            hidden_size: 768,
            num_hidden_layers: 12,
            num_attention_heads: 12,
            num_key_value_heads: 4,
            intermediate_size: 2048,
            max_position_embeddings: 1024,
            num_experts: 8,
            num_experts_per_tok: 2,
            num_moe_layers: 3,
            moe_layer_freq: 4,
            tie_word_embeddings: false,
        }
    }

    /// The `quark_1b` preset.
    pub fn quark_1b() -> (s: Self)
        ensures
            preset_shape(ModelPreset::Quark1B) == Some(s),
    {
        ModelShape {
            vocab_size: 32000,
            hidden_size: 2048,
            num_hidden_layers: 16,
            num_attention_heads: 16,
            num_key_value_heads: 4,
            intermediate_size: 5632,
            max_position_embeddings: 4096,
            num_experts: 8,
            num_experts_per_tok: 2,
            num_moe_layers: 4,
            moe_layer_freq: 4,
            tie_word_embeddings: true,
        }
    }

    /// The `quark_3b` preset.
    pub fn quark_3b() -> (s: Self)
        ensures
            preset_shape(ModelPreset::Quark3B) == Some(s),
    {
        ModelShape {
            vocab_size: 32000,
            hidden_size: 3072,
            num_hidden_layers: 28,
            num_attention_heads: 24,
            num_key_value_heads: 8,
            intermediate_size: 8192,
            max_position_embeddings: 4096,
            num_experts: 8,
            num_experts_per_tok: 2,
            num_moe_layers: 6,
            moe_layer_freq: 4,
            tie_word_embeddings: true,
        }
    }

    /// The `quark_7b` preset.
    pub fn quark_7b() -> (s: Self)
        ensures
            preset_shape(ModelPreset::Quark7B) == Some(s),
    {
        ModelShape {
            vocab_size: 131072,
            hidden_size: 4096,
            num_hidden_layers: 32,
            num_attention_heads: 32,
            num_key_value_heads: 8,
            intermediate_size: 14336,
            max_position_embeddings: 8192,
            num_experts: 8,
            num_experts_per_tok: 2,
            num_moe_layers: 16,
            moe_layer_freq: 2,
            tie_word_embeddings: false,
        }
    }

    /// The `quark_20b` preset.
    pub fn quark_20b() -> (s: Self)
        ensures
            preset_shape(ModelPreset::Quark20B) == Some(s),
    {
        ModelShape {
            vocab_size: 131072,
            hidden_size: 5120,
            num_hidden_layers: 40,
            num_attention_heads: 40,
            num_key_value_heads: 8,
            intermediate_size: 16384,
            max_position_embeddings: 8192,
            num_experts: 8,
            num_experts_per_tok: 2,
            num_moe_layers: 20,
            moe_layer_freq: 2,
            tie_word_embeddings: false,
        }
    }

    /// The `quark_30b` preset.
    pub fn quark_30b() -> (s: Self)
        ensures
            preset_shape(ModelPreset::Quark30B) == Some(s),
    {
        ModelShape {
            vocab_size: 131072,
            hidden_size: 6144,
            num_hidden_layers: 48,
            num_attention_heads: 48,
            num_key_value_heads: 8,
            intermediate_size: 16384,
            max_position_embeddings: 8192,
            num_experts: 8,
            num_experts_per_tok: 2,
            num_moe_layers: 24,
            moe_layer_freq: 2,
            tie_word_embeddings: false,
        }
    }

    /// The `quark_48b` preset.
    pub fn quark_48b() -> (s: Self)
        ensures
            preset_shape(ModelPreset::Quark48B) == Some(s),
    {
        ModelShape {
            vocab_size: 131072,
            hidden_size: 7168,
            num_hidden_layers: 56,
            num_attention_heads: 56,
            num_key_value_heads: 8,
            intermediate_size: 20480,
            max_position_embeddings: 8192,
            num_experts: 16,
            num_experts_per_tok: 4,
            num_moe_layers: 28,
            moe_layer_freq: 2,
            tie_word_embeddings: false,
        }
    }

    /// The `quark_74b` preset.
    pub fn quark_74b() -> (s: Self)
        ensures
            preset_shape(ModelPreset::Quark74B) == Some(s),
    {
        ModelShape {
            vocab_size: 131072,
            hidden_size: 8192,
            num_hidden_layers: 80,
            num_attention_heads: 64,
            num_key_value_heads: 8,
            intermediate_size: 28672,
            max_position_embeddings: 8192,
            num_experts: 16,
            num_experts_per_tok: 4,
            num_moe_layers: 40,
            moe_layer_freq: 2,
            tie_word_embeddings: false,
        }
    }

    /// The `quark_120b` preset.
    pub fn quark_120b() -> (s: Self)
        ensures
            preset_shape(ModelPreset::Quark120B) == Some(s),
    {
        ModelShape {
            vocab_size: 131072,
            hidden_size: 10240,
            num_hidden_layers: 96,
            num_attention_heads: 80,
            num_key_value_heads: 8,
            intermediate_size: 36864,
            max_position_embeddings: 8192,
            num_experts: 16,
            num_experts_per_tok: 4,
            num_moe_layers: 48,
            moe_layer_freq: 2,
            tie_word_embeddings: false,
        }
    }

    /// The `quark_249b` preset.
    pub fn quark_249b() -> (s: Self)
        ensures
            preset_shape(ModelPreset::Quark249B) == Some(s),
    {
        ModelShape {
            vocab_size: 131072,
            hidden_size: 14336,
            num_hidden_layers: 96,
            num_attention_heads: 112,
            num_key_value_heads: 8,
            intermediate_size: 49152,
            max_position_embeddings: 8192,
            num_experts: 32,
            num_experts_per_tok: 8,
            num_moe_layers: 48,
            moe_layer_freq: 2,
            tie_word_embeddings: false,
        }
    }

    /// The `quark_300b` preset.
    pub fn quark_300b() -> (s: Self)
        ensures
            preset_shape(ModelPreset::Quark300B) == Some(s),
    {
        ModelShape {
            vocab_size: 131072,
            hidden_size: 14336,
            num_hidden_layers: 112,
            num_attention_heads: 112,
            num_key_value_heads: 8,
            intermediate_size: 57344,
            max_position_embeddings: 8192,
            num_experts: 32,
            num_experts_per_tok: 8,
            num_moe_layers: 56,
            moe_layer_freq: 2,
            tie_word_embeddings: false,
        }
    }

    /// The `quark_400b` preset.
    pub fn quark_400b() -> (s: Self)
        ensures
            preset_shape(ModelPreset::Quark400B) == Some(s),
    {
        ModelShape {
            vocab_size: 131072,
            hidden_size: 16384,
            num_hidden_layers: 128,
            num_attention_heads: 128,
            num_key_value_heads: 16,
            intermediate_size: 65536,
            max_position_embeddings: 8192,
            num_experts: 64,
            num_experts_per_tok: 8,
            num_moe_layers: 64,
            moe_layer_freq: 2,
            tie_word_embeddings: false,
        }
    }

    /// The shape of a preset, or `None` for a custom model.
    pub fn from_preset(preset: ModelPreset) -> (r: Option<Self>)
        ensures
            r == preset_shape(preset),
    {
        match preset {
            ModelPreset::QuarkTiny => Some(Self::quark_tiny()),
            ModelPreset::QuarkSmall => Some(Self::quark_small()),
            ModelPreset::Quark1B => Some(Self::quark_1b()),
            ModelPreset::Quark3B => Some(Self::quark_3b()),
            ModelPreset::Quark7B => Some(Self::quark_7b()),
            ModelPreset::Quark20B => Some(Self::quark_20b()),
            ModelPreset::Quark30B => Some(Self::quark_30b()),
            ModelPreset::Quark48B => Some(Self::quark_48b()),
            ModelPreset::Quark74B => Some(Self::quark_74b()),
            ModelPreset::Quark120B => Some(Self::quark_120b()),
            ModelPreset::Quark249B => Some(Self::quark_249b()),
            ModelPreset::Quark300B => Some(Self::quark_300b()),
            ModelPreset::Quark400B => Some(Self::quark_400b()),
            ModelPreset::Custom => None,
        }
    }
}


impl Default for ModelShape {
    /// The tiny preset.
    fn default() -> (s: Self)
        ensures
            preset_shape(ModelPreset::QuarkTiny) == Some(s),
    {
        Self::quark_tiny()
    }
}

} // verus!
