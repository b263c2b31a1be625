//! Checkpoint layout: which weights get quantized and how they are packed,
//! the files of a sharded checkpoint, and which stage each parameter of a
//! whole-model checkpoint belongs to.

use vstd::prelude::*;

use crate::text::{
    chars_of, ends_with, occurs_at_exec, parse_unsigned, parse_unsigned_exec, replace_all, replace_str, starts_with,
    str_eq, string_of,
};
use crate::training::{join_path, path_join};

verus! {

/// Quantization format of a model's projection weights.
#[derive(Debug, Clone, Copy, PartialEq, Eq, Structural)]
pub enum QuantFormat {
    Q4,
    Q8,
}

impl QuantFormat {
    /// Bits per quantized value.
    pub fn bits(self) -> (b: usize)
        ensures
            b == (match self {
                QuantFormat::Q4 => 4usize,
                QuantFormat::Q8 => 8usize,
            }),
    {
        match self {
            QuantFormat::Q4 => 4,
            QuantFormat::Q8 => 8,
        }
    }

    /// Values per packed `u32` word.
    pub fn per_word(self) -> (n: usize)
        ensures
            n == 32usize / (match self {
                QuantFormat::Q4 => 4usize,
                QuantFormat::Q8 => 8usize,
            }),
    {
        32 / self.bits()
    }

    /// What is added to a signed level to store it unsigned.
    pub fn offset(self) -> (o: i32)
        ensures
            o == (match self {
                QuantFormat::Q4 => 8i32,
                QuantFormat::Q8 => 128i32,
            }),
    {
        match self {
            QuantFormat::Q4 => 8,
            QuantFormat::Q8 => 128,
        }
    }

    /// The mask of one stored value: `bits` low bits set.
    pub fn mask(self) -> (m: u32)
        ensures
            m == (match self {
                QuantFormat::Q4 => 0xFu32,
                QuantFormat::Q8 => 0xFFu32,
            }),
    {
        let b = self.bits();
        assert((1u32 << 4u32) == 16) by (bit_vector);
        assert((1u32 << 8u32) == 256) by (bit_vector);
        (1u32 << (b as u32)) - 1
    }
}

/// Largest of 32, 16 and 8 that divides `in_features`, else `in_features`.
pub open spec fn group_size_of(in_features: nat) -> nat {
    if in_features % 32 == 0 {
        32
    } else if in_features % 16 == 0 {
        16
    } else if in_features % 8 == 0 {
        8
    } else {
        in_features
    }
}

/// The quantization group size for rows of `in_features` values.
pub fn group_size(in_features: usize) -> (g: usize)
    ensures
        g == group_size_of(in_features as nat),
{
    if in_features % 32 == 0 {
        32
    } else if in_features % 16 == 0 {
        16
    } else if in_features % 8 == 0 {
        8
    } else {
        in_features
    }
}

/// Whether a weight is quantized: the projection weights and the LM head.
pub open spec fn quantizable(name: Seq<char>) -> bool {
    ends_with(name, "_proj.weight"@) || name == "lm_head.weight"@
}

/// Whether the weight `name` is quantized.
pub fn is_quantizable(name: &str) -> (r: bool)
    ensures
        r == quantizable(name@),
{
    let n = chars_of(name);
    let suffix = chars_of("_proj.weight");
    let mut ends = false;
    if suffix.len() <= n.len() {
        let start = n.len() - suffix.len();
        ends = crate::text::occurs_at_exec(&n, &suffix, start);
        assert(n@.skip(start as int) =~= n@.subrange(start as int, start + suffix@.len()));
    }
    ends || str_eq(name, "lm_head.weight")
}

/// What quantizing a checkpoint produced.
#[derive(Debug, Clone, Copy)]
pub struct QuantReport {
    pub source_bytes: u64,
    pub output_bytes: u64,
    pub quantized_params: u64,
}

/// The file of `stage` in the sharded checkpoint directory `dir`.
pub open spec fn stage_file(dir: Seq<char>, stage: Seq<char>) -> Seq<char> {
    path_join(dir, stage + ".safetensors"@)
}

/// The file of `stage` in the sharded checkpoint directory `dir`.
pub fn stage_path(dir: &str, stage: &str) -> (r: String)
    ensures
        r@ == stage_file(dir@, stage@),
{
    let mut file = stage.to_owned();
    file.append(".safetensors");
    join_path(dir, file.as_str())
}

/// Why a parameter of a whole-model checkpoint has no stage.
#[derive(Debug, Clone, PartialEq, Eq)]
pub enum StageRouteError {
    /// `layers.` not followed by `{index}.{name}`.
    BadLayerPath,
    /// The layer index is not a number.
    BadLayerIndex,
    /// The layer index is not below the number of layers.
    LayerOutOfRange { index: usize },
    /// The path belongs to no stage.
    Unexpected,
}

/// The part of `s` before its first `c` and the part after it, if `s` holds
/// `c` (`str::split_once`).
pub open spec fn split_once(s: Seq<char>, c: char) -> Option<(Seq<char>, Seq<char>)>
    decreases s.len(),
{
    if s.len() == 0 {
        None
    } else if s[0] == c {
        Some((Seq::empty(), s.drop_first()))
    } else {
        match split_once(s.drop_first(), c) {
            Some((a, b)) => Some((seq![s[0]] + a, b)),
            None => None,
        }
    }
}

/// Where the parameter `path` of a whole-model checkpoint goes among the
/// stages of a model with `layers` layers: the stage index (0 for the
/// embedding, `1 + i` for layer `i`, `layers + 1` for the head) and the
/// parameter's name inside that stage.
pub open spec fn route(path: Seq<char>, layers: nat) -> Result<(nat, Seq<char>), StageRouteError> {
    if starts_with(path, "embed_tokens."@) {
        Ok((0, path))
    } else if starts_with(path, "layers."@) {
        match split_once(path.skip(7), '.') {
            None => Err(StageRouteError::BadLayerPath),
            Some((i, name)) => match parse_unsigned(i, usize::MAX as nat) {
                None => Err(StageRouteError::BadLayerIndex),
                Some(n) => if n < layers {
                    Ok((1 + n, name))
                } else {
                    Err(StageRouteError::LayerOutOfRange { index: n as usize })
                },
            },
        }
    } else if starts_with(path, "norm."@) || starts_with(path, "lm_head."@) {
        Ok((layers + 1, path))
    } else {
        Err(StageRouteError::Unexpected)
    }
}

pub(crate) fn has_prefix(s: &Vec<char>, p: &str) -> (r: bool)
    ensures
        r == starts_with(s@, p@),
{
    let pc = chars_of(p);
    if pc.len() > s.len() {
        return false;
    }
    let r = crate::text::occurs_at_exec(s, &pc, 0);
    assert(s@.take(pc@.len() as int) =~= s@.subrange(0, pc@.len() as int));
    r
}

/// Splits `s[from..]` at its first `c`.
pub(crate) fn split_once_from(s: &Vec<char>, from: usize, c: char) -> (r: Option<(Vec<char>, Vec<char>)>)
    requires
        from <= s@.len(),
    ensures
        match r {
            Some((a, b)) => split_once(s@.skip(from as int), c) == Some((a@, b@)),
            None => split_once(s@.skip(from as int), c) is None,
        },
    decreases s@.len() - from,
{
    if from == s.len() {
        assert(s@.skip(from as int) =~= Seq::<char>::empty());
        return None;
    }
    assert(s@.skip(from as int)[0] == s@[from as int]);
    assert(s@.skip(from as int).drop_first() =~= s@.skip(from + 1));
    if s[from] == c {
        let mut b: Vec<char> = Vec::new();
        let mut i = from + 1;
        while i < s.len()
            invariant
                from + 1 <= i <= s@.len(),
                b@ == s@.subrange(from + 1, i as int),
            decreases s@.len() - i,
        {
            b.push(s[i]);
            i = i + 1;
            assert(b@ =~= s@.subrange(from + 1, i as int));
        }
        assert(b@ =~= s@.skip(from + 1));
        return Some((Vec::new(), b));
    }
    match split_once_from(s, from + 1, c) {
        None => None,
        Some((a, b)) => {
            let mut a2: Vec<char> = Vec::new();
            a2.push(s[from]);
            let mut j: usize = 0;
            while j < a.len()
                invariant
                    j <= a@.len(),
                    a2@ == seq![s@[from as int]] + a@.take(j as int),
                decreases a@.len() - j,
            {
                a2.push(a[j]);
                j = j + 1;
                assert(a2@ =~= seq![s@[from as int]] + a@.take(j as int));
            }
            assert(a@.take(a@.len() as int) =~= a@);
            Some((a2, b))
        },
    }
}

/// The stage of the parameter `path` of a model with `layers` layers, and
/// its name inside that stage.
pub fn stage_of_param(path: &str, layers: usize) -> (r: Result<(usize, String), StageRouteError>)
    requires
        layers < usize::MAX,
    ensures
        match r {
            Ok((i, name)) => route(path@, layers as nat) == Ok::<(nat, Seq<char>), StageRouteError>((i as nat, name@)),
            Err(e) => route(path@, layers as nat) == Err::<(nat, Seq<char>), StageRouteError>(e),
        },
{
    let s = chars_of(path);
    if has_prefix(&s, "embed_tokens.") {
        return Ok((0, path.to_owned()));
    }
    if has_prefix(&s, "layers.") {
        proof {
            reveal_strlit("layers.");
        }
        match split_once_from(&s, 7, '.') {
            None => Err(StageRouteError::BadLayerPath),
            Some((i, name)) => {
                let istr = string_of(&i);
                match parse_unsigned_exec(istr.as_str(), usize::MAX as u64) {
                    None => Err(StageRouteError::BadLayerIndex),
                    Some(n) => {
                        let n = n as usize;
                        if n < layers {
                            Ok((1 + n, string_of(&name)))
                        } else {
                            Err(StageRouteError::LayerOutOfRange { index: n })
                        }
                    },
                }
            },
        }
    } else if has_prefix(&s, "norm.") || has_prefix(&s, "lm_head.") {
        Ok((layers + 1, path.to_owned()))
    } else {
        Err(StageRouteError::Unexpected)
    }
}

/// The training step of a checkpoint named `checkpoint-{step}`.
pub open spec fn checkpoint_step_of(name: Seq<char>) -> Option<nat> {
    if starts_with(name, "checkpoint-"@) {
        parse_unsigned(name.skip(11), u64::MAX as nat)
    } else {
        None
    }
}

/// The step in a checkpoint's file name, if it is `checkpoint-{step}`.
pub fn checkpoint_step(name: &str) -> (r: Option<u64>)
    ensures
        match r {
            Some(v) => checkpoint_step_of(name@) == Some(v as nat),
            None => checkpoint_step_of(name@) is None,
        },
{
    proof {
        reveal_strlit("checkpoint-");
    }
    let s = chars_of(name);
    if !has_prefix(&s, "checkpoint-") {
        return None;
    }
    let mut rest: Vec<char> = Vec::new();
    let mut i: usize = 11;
    while i < s.len()
        invariant
            11 <= i <= s@.len(),
            rest@ == s@.subrange(11, i as int),
        decreases s@.len() - i,
    {
        rest.push(s[i]);
        i = i + 1;
        assert(rest@ =~= s@.subrange(11, i as int));
    }
    assert(rest@ =~= s@.skip(11));
    let r = string_of(&rest);
    parse_unsigned_exec(r.as_str(), u64::MAX)
}

} // verus!

verus! {

/// The Quark name of a HuggingFace weight: without a leading `model.`, and
/// with `self_attn.`, `mlp.`, `input_layernorm.` and
/// `post_attention_layernorm.` renamed, in that order.
pub open spec fn hf_key_name(hf_key: Seq<char>) -> Seq<char> {
    let key = if starts_with(hf_key, "model."@) {
        hf_key.skip(6)
    } else {
        hf_key
    };
    replace_all(
        replace_all(
            replace_all(replace_all(key, "self_attn."@, "attn."@), "mlp."@, "ffn."@),
            "input_layernorm."@,
            "input_norm."@,
        ),
        "post_attention_layernorm."@,
        "post_attn_norm."@,
    )
}

/// Maps a HuggingFace weight name to the Quark convention.
pub fn hf_key_to_quark(hf_key: &str) -> (r: String)
    ensures
        r@ == hf_key_name(hf_key@),
{
    proof {
        reveal_strlit("model.");
        reveal_strlit("self_attn.");
        reveal_strlit("mlp.");
        reveal_strlit("input_layernorm.");
        reveal_strlit("post_attention_layernorm.");
    }
    let s = chars_of(hf_key);
    let key = if has_prefix(&s, "model.") {
        hf_key.substring_char(6, s.len()).to_owned()
    } else {
        hf_key.to_owned()
    };
    assert(s@.len() >= 6 ==> hf_key@.subrange(6, s@.len() as int) =~= hf_key@.skip(6));
    let a = replace_str(key.as_str(), "self_attn.", "attn.");
    let b = replace_str(a.as_str(), "mlp.", "ffn.");
    let c = replace_str(b.as_str(), "input_layernorm.", "input_norm.");
    replace_str(c.as_str(), "post_attention_layernorm.", "post_attn_norm.")
}

/// The step of a whole-model checkpoint file named `checkpoint-{step}.bin`.
pub open spec fn bin_checkpoint_step_of(name: Seq<char>) -> Option<nat> {
    if starts_with(name, "checkpoint-"@) && ends_with(name, ".bin"@) && name.len() >= 15 {
        parse_unsigned(name.subrange(11, name.len() - 4), u64::MAX as nat)
    } else {
        None
    }
}

/// The step in a whole-model checkpoint's file name, if it is
/// `checkpoint-{step}.bin`.
pub fn bin_checkpoint_step(name: &str) -> (r: Option<u64>)
    ensures
        match r {
            Some(v) => bin_checkpoint_step_of(name@) == Some(v as nat),
            None => bin_checkpoint_step_of(name@) is None,
        },
{
    proof {
        reveal_strlit("checkpoint-");
        reveal_strlit(".bin");
    }
    let s = chars_of(name);
    if s.len() < 15 || !has_prefix(&s, "checkpoint-") {
        return None;
    }
    let suffix = chars_of(".bin");
    let at = s.len() - 4;
    if !crate::text::occurs_at_exec(&s, &suffix, at) {
        assert(s@.skip(at as int) =~= s@.subrange(at as int, at + 4));
        return None;
    }
    assert(s@.skip(at as int) =~= s@.subrange(at as int, at + 4));
    let mid = name.substring_char(11, at).to_owned();
    parse_unsigned_exec(mid.as_str(), u64::MAX)
}

/// Whether `i` is the last index holding the largest of `steps`
/// (`Iterator::max_by_key` keeps the last of equal maxima).
pub open spec fn is_last_max(steps: Seq<u64>, i: int) -> bool {
    &&& 0 <= i < steps.len()
    &&& forall|j: int| 0 <= j < steps.len() ==> steps[j] <= steps[i]
    &&& forall|j: int| i < j < steps.len() ==> steps[j] < steps[i]
}

/// The index of the latest checkpoint among found ones with these `steps`.
pub fn latest_index(steps: &Vec<u64>) -> (r: Option<usize>)
    ensures
        match r {
            Some(i) => is_last_max(steps@, i as int),
            None => steps@.len() == 0,
        },
{
    if steps.len() == 0 {
        return None;
    }
    let mut best: usize = 0;
    let mut i: usize = 1;
    while i < steps.len()
        invariant
            1 <= i <= steps@.len(),
            best < i,
            forall|j: int| 0 <= j < i ==> steps@[j] <= steps@[best as int],
            forall|j: int| best < j < i ==> steps@[j] < steps@[best as int],
        decreases steps@.len() - i,
    {
        if steps[i] >= steps[best] {
            best = i;
        }
        i = i + 1;
    }
    Some(best)
}


/// `s` with every trailing copy of `p` removed (`str::trim_end_matches`).
pub open spec fn trim_end_all(s: Seq<char>, p: Seq<char>) -> Seq<char>
    decreases s.len(),
{
    if p.len() > 0 && ends_with(s, p) {
        trim_end_all(s.take(s.len() - p.len()), p)
    } else {
        s
    }
}

/// `s` with every trailing copy of `p` removed.
pub fn trim_end_str(s: &str, p: &str) -> (r: String)
    ensures
        r@ == trim_end_all(s@, p@),
{
    let n = chars_of(s);
    let q = chars_of(p);
    let mut k: usize = n.len();
    assert(n@.take(k as int) =~= n@);
    while q.len() > 0 && k >= q.len() && occurs_at_exec(&n, &q, k - q.len())
        invariant
            k <= n@.len(),
            n@ == s@,
            q@ == p@,
            trim_end_all(n@.take(k as int), q@) == trim_end_all(s@, p@),
        decreases k,
    {
        let ghost t = n@.take(k as int);
        assert(t.skip(t.len() - q@.len()) =~= n@.subrange(k - q@.len(), k as int));
        assert(t.take(t.len() - q@.len()) =~= n@.take(k - q@.len()));
        k = k - q.len();
    }
    let ghost t = n@.take(k as int);
    if q.len() > 0 && k >= q.len() {
        assert(t.skip(t.len() - q@.len()) =~= n@.subrange(k - q@.len(), k as int));
    }
    assert(trim_end_all(t, q@) == t);
    s.substring_char(0, k).to_owned()
}

/// What quantizing a checkpoint does with one of its tensors.
#[derive(Debug)]
pub enum TensorPlan {
    /// Kept as it is (stored as f32).
    Keep,
    /// Replaced by packed words and per-group scales.
    Quantize {
        /// Name and `[out, words]` shape of the packed words.
        packed_name: String,
        packed_shape: (usize, usize),
        /// Name and `[out, groups]` shape of the scales.
        scales_name: String,
        scales_shape: (usize, usize),
        /// Parameters quantized.
        params: u64,
    },
}

/// Whether a tensor named `name` of this `shape` is quantized to `format`:
/// a quantizable weight of two dimensions whose input width is a whole
/// number of packed words.
pub open spec fn plans_quantize(name: Seq<char>, shape: Seq<usize>, format: QuantFormat) -> bool {
    &&& quantizable(name)
    &&& shape.len() == 2
    &&& (shape[0] as int) % (32int / (match format {
        QuantFormat::Q4 => 4int,
        QuantFormat::Q8 => 8int,
    })) == 0
}

/// What quantizing a checkpoint to `format` does with the tensor `name` of
/// `shape` (`[in, out]`): keeps it, or replaces it by `{prefix}.quant.packed`
/// of `[out, in / per_word]` words and `{prefix}.quant.scales` of
/// `[out, in / group]` scales, `prefix` being the name without its trailing
/// `.weight`.
pub fn tensor_plan(name: &str, shape: &Vec<usize>, format: QuantFormat) -> (r: TensorPlan)
    requires
        shape@.len() == 2 ==> shape@[0] * shape@[1] <= usize::MAX,
    ensures
        !plans_quantize(name@, shape@, format) ==> r is Keep,
        plans_quantize(name@, shape@, format) ==> ({
            let prefix = trim_end_all(name@, ".weight"@);
            let per_word = 32int / (match format {
                QuantFormat::Q4 => 4int,
                QuantFormat::Q8 => 8int,
            });
            &&& r matches TensorPlan::Quantize { packed_name, packed_shape, scales_name, scales_shape, params }
            &&& packed_name@ == prefix + ".quant.packed"@
            &&& packed_shape == (shape@[1], ((shape@[0] as int) / per_word) as usize)
            &&& scales_name@ == prefix + ".quant.scales"@
            &&& scales_shape == (shape@[1], ((shape@[0] as nat) / group_size_of(shape@[0] as nat)) as usize)
            &&& params == shape@[0] * shape@[1]
        }),
{
    let per_word = format.per_word();
    if !is_quantizable(name) || shape.len() != 2 || shape[0] % per_word != 0 {
        return TensorPlan::Keep;
    }
    let in_f = shape[0];
    let out_f = shape[1];
    let prefix = trim_end_str(name, ".weight");
    let g = group_size(in_f);
    assert(g > 0) by {
        if in_f % 8 != 0 {
            assert(in_f != 0);
        }
    }
    let packed_name = prefix.clone().concat(".quant.packed");
    let scales_name = prefix.concat(".quant.scales");
    TensorPlan::Quantize {
        packed_name,
        packed_shape: (out_f, in_f / per_word),
        scales_name,
        scales_shape: (out_f, in_f / g),
        params: (in_f * out_f) as u64,
    }
}


/// What exporting a checkpoint for inference does with its weights.
#[derive(Debug, Clone, Copy, PartialEq, Eq, Structural)]
pub enum ExportStep {
    /// Quantize the plain weights to this format.
    Quantize(QuantFormat),
    /// Refused: the weights are already quantized to this other format.
    AlreadyQuantized(QuantFormat),
    /// Copy the model files as they are.
    Copy,
}

/// What exporting does, given the quantization asked for (`want`) and the
/// one the checkpoint already has (`have`): quantize plain weights when a
/// format is asked for, refuse to turn one format into another, and copy
/// otherwise.
pub fn export_step(want: Option<QuantFormat>, have: Option<QuantFormat>) -> (r: ExportStep)
    ensures
        r == (match (want, have) {
            (Some(f), None) => ExportStep::Quantize(f),
            (Some(w), Some(h)) => if w != h {
                ExportStep::AlreadyQuantized(h)
            } else {
                ExportStep::Copy
            },
            _ => ExportStep::Copy,
        }),
{
    match (want, have) {
        (Some(f), None) => ExportStep::Quantize(f),
        (Some(w), Some(h)) => {
            if w != h {
                ExportStep::AlreadyQuantized(h)
            } else {
                ExportStep::Copy
            }
        },
        _ => ExportStep::Copy,
    }
}

} // verus!
