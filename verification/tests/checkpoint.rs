use quark::checkpoint::{
    bin_checkpoint_step, checkpoint_step, group_size, hf_key_to_quark, is_quantizable, latest_index, stage_of_param,
    stage_path, QuantFormat, StageRouteError,
};
use quark::checkpoint::{export_step, tensor_plan, trim_end_str, ExportStep, TensorPlan};

#[test]
fn quant_formats() {
    assert_eq!(QuantFormat::Q4.bits(), 4);
    assert_eq!(QuantFormat::Q4.per_word(), 8);
    assert_eq!(QuantFormat::Q8.per_word(), 4);
    assert_eq!(QuantFormat::Q4.mask(), 0xF);
    assert_eq!(QuantFormat::Q8.mask(), 0xFF);
    assert_eq!(QuantFormat::Q8.offset(), 128);
    assert_eq!(group_size(64), 32);
    assert_eq!(group_size(48), 16);
    assert_eq!(group_size(24), 8);
    assert_eq!(group_size(12), 12);
}

#[test]
fn quantizable_weights() {
    assert!(is_quantizable("layers.0.attn.q_proj.weight"));
    assert!(is_quantizable("lm_head.weight"));
    assert!(!is_quantizable("norm.weight"));
    assert!(!is_quantizable("q_proj.bias"));
}

#[test]
fn stage_files_and_routes() {
    assert_eq!(stage_path("/ck", "layer.0001"), "/ck/layer.0001.safetensors");
    assert_eq!(stage_of_param("embed_tokens.weight", 3), Ok((0, "embed_tokens.weight".to_string())));
    assert_eq!(stage_of_param("layers.2.attn.q_proj.weight", 3), Ok((3, "attn.q_proj.weight".to_string())));
    assert_eq!(stage_of_param("norm.weight", 3), Ok((4, "norm.weight".to_string())));
    assert_eq!(stage_of_param("layers.3.x", 3), Err(StageRouteError::LayerOutOfRange { index: 3 }));
    assert_eq!(stage_of_param("layers.x.y", 3), Err(StageRouteError::BadLayerIndex));
    assert_eq!(stage_of_param("layers.7", 9), Err(StageRouteError::BadLayerPath));
    assert_eq!(stage_of_param("other.w", 3), Err(StageRouteError::Unexpected));
}

#[test]
fn checkpoint_names() {
    assert_eq!(checkpoint_step("checkpoint-42"), Some(42));
    assert_eq!(checkpoint_step("checkpoint-"), None);
    assert_eq!(checkpoint_step("ckpt-1"), None);
    assert_eq!(bin_checkpoint_step("checkpoint-30.bin"), Some(30));
    assert_eq!(bin_checkpoint_step("checkpoint-30"), None);
    assert_eq!(latest_index(&vec![10, 30, 20, 30]), Some(3));
    assert_eq!(latest_index(&vec![]), None);
}

#[test]
fn hf_names_map_to_quark() {
    assert_eq!(hf_key_to_quark("model.layers.0.self_attn.q_proj.weight"), "layers.0.attn.q_proj.weight");
    assert_eq!(hf_key_to_quark("model.layers.1.mlp.up_proj.weight"), "layers.1.ffn.up_proj.weight");
    assert_eq!(hf_key_to_quark("layers.2.input_layernorm.weight"), "layers.2.input_norm.weight");
    assert_eq!(hf_key_to_quark("layers.2.post_attention_layernorm.weight"), "layers.2.post_attn_norm.weight");
    assert_eq!(hf_key_to_quark("lm_head.weight"), "lm_head.weight");
}

#[test]
fn projection_weights_are_planned_for_quantization() {
    match tensor_plan("attn.q_proj.weight", &vec![64, 32], QuantFormat::Q4) {
        TensorPlan::Quantize { packed_name, packed_shape, scales_name, scales_shape, params } => {
            assert_eq!(packed_name, "attn.q_proj.quant.packed");
            assert_eq!(packed_shape, (32, 8));
            assert_eq!(scales_name, "attn.q_proj.quant.scales");
            assert_eq!(scales_shape, (32, 2));
            assert_eq!(params, 2048);
        }
        TensorPlan::Keep => panic!("a projection weight is quantized"),
    }
    match tensor_plan("lm_head.weight", &vec![24, 10], QuantFormat::Q8) {
        TensorPlan::Quantize { packed_shape, scales_shape, .. } => {
            assert_eq!(packed_shape, (10, 6));
            assert_eq!(scales_shape, (10, 3));
        }
        TensorPlan::Keep => panic!("the head is quantized"),
    }
    assert!(matches!(tensor_plan("norm.weight", &vec![64], QuantFormat::Q4), TensorPlan::Keep));
    assert!(matches!(tensor_plan("attn.q_proj.weight", &vec![12, 4], QuantFormat::Q4), TensorPlan::Keep));
    assert!(matches!(tensor_plan("attn.q_proj.weight", &vec![8, 4, 2], QuantFormat::Q4), TensorPlan::Keep));
}

#[test]
fn trailing_suffixes_are_all_trimmed() {
    assert_eq!(trim_end_str("a.weight.weight", ".weight"), "a");
    assert_eq!(trim_end_str("a.weights", ".weight"), "a.weights");
    assert_eq!(trim_end_str("abc", ""), "abc");
}

#[test]
fn export_quantizes_copies_or_refuses() {
    assert_eq!(export_step(Some(QuantFormat::Q4), None), ExportStep::Quantize(QuantFormat::Q4));
    assert_eq!(export_step(Some(QuantFormat::Q4), Some(QuantFormat::Q8)), ExportStep::AlreadyQuantized(QuantFormat::Q8));
    assert_eq!(export_step(Some(QuantFormat::Q8), Some(QuantFormat::Q8)), ExportStep::Copy);
    assert_eq!(export_step(None, Some(QuantFormat::Q8)), ExportStep::Copy);
    assert_eq!(export_step(None, None), ExportStep::Copy);
}
