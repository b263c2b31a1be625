use quark::model::{layer_stage, stage_names, ModelPreset, ModelShape};

fn tiny() -> ModelShape {
    ModelShape {
        vocab_size: 8000,
        hidden_size: 256,
        num_hidden_layers: 6,
        num_attention_heads: 4,
        num_key_value_heads: 2,
        intermediate_size: 704,
        max_position_embeddings: 512,
        num_experts: 4,
        num_experts_per_tok: 2,
        num_moe_layers: 2,
        moe_layer_freq: 3,
        tie_word_embeddings: false,
    }
}

#[test]
fn stage_names_are_zero_padded() {
    assert_eq!(layer_stage(7), "layer.0007");
    assert_eq!(layer_stage(12345), "layer.12345");
    assert_eq!(stage_names(2), ["embed", "layer.0000", "layer.0001", "head"]);
}

#[test]
fn moe_layers_follow_the_frequency() {
    let s = tiny();
    assert!(s.is_moe_layer(0) && s.is_moe_layer(3) && !s.is_moe_layer(4));
    let dense = ModelShape { moe_layer_freq: 0, ..tiny() };
    assert!(!dense.is_moe_layer(0));
}

#[test]
fn param_count_of_tiny() {
    let s = tiny();
    let h = 256u64;
    let attn = h * 256 + 2 * h * 128 + 256 * h;
    let ffn = 3 * h * 704;
    let moe = h * 4 + 4 * ffn;
    let norms = 2 * h;
    let layers = 2 * (attn + norms + moe) + 4 * (attn + norms + ffn);
    assert_eq!(s.param_count(), 8000 * h + layers + h * 8000 + h);
}

#[test]
fn training_memory_of_tiny() {
    let s = tiny();
    let n = s.training_memory_bytes(2, 16, 4);
    let state = s.param_count() * 5 * 4;
    let tokens = 32u64;
    let dense = tokens * (16 * 256 + 3 * 704);
    let moe = tokens * (16 * 256 + 3 * 704 * 2);
    let attn = (2 * 4 * 16 * 16) as u64 * 3;
    let per_layer = 2 * (moe + attn) + 4 * (dense + attn);
    let logits = tokens * 8000 * 3;
    assert_eq!(n, state + (per_layer + logits) * 4);
}

#[test]
fn presets_give_their_shapes() {
    assert_eq!(ModelShape::from_preset(ModelPreset::QuarkTiny), Some(tiny()));
    assert_eq!(ModelShape::quark_tiny(), tiny());
    assert_eq!(ModelShape::default(), tiny());
    assert_eq!(ModelShape::from_preset(ModelPreset::Custom), None);
    let s = ModelShape::from_preset(ModelPreset::Quark1B).unwrap();
    assert_eq!(s.hidden_size, 2048);
    assert_eq!(s.num_hidden_layers, 16);
    assert!(s.tie_word_embeddings);
    let b = ModelShape::from_preset(ModelPreset::Quark400B).unwrap();
    assert_eq!(b, ModelShape::quark_400b());
    assert_eq!(b.num_experts, 64);
    assert_eq!(b.num_key_value_heads, 16);
}

#[test]
fn preset_sizes_match_their_descriptions() {
    // About 12M and about 220M parameters.
    assert_eq!(ModelShape::quark_tiny().param_count(), 11_769_088);
    assert_eq!(ModelShape::quark_small().param_count(), 223_777_536);
    assert_eq!(ModelShape::quark_400b().param_count(), 13_481_973_661_696);
}
