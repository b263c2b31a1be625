use quark::data::batch::DataBatch;
use quark::memory::budget::HardwareBudget;
use quark::model::ModelShape;
use quark::training::{
    act_key, chunks, default_true, estimate_memory, offload_dir, optim_stage, streams, target_count, MemoryEstimate,
    OffloadMode, OffloadPlan, OptimizerKind, Precision, TrainingMode,
};

#[test]
fn precision_and_defaults() {
    assert_eq!(Precision::F32.bytes_per_elem(), 4);
    assert_eq!(Precision::Bf16.bytes_per_elem(), 2);
    assert!(Precision::F32.is_supported());
    assert!(!Precision::Bf16.is_supported());
    assert_eq!(Precision::default(), Precision::F32);
    assert_eq!(OffloadMode::default(), OffloadMode::Auto);
    assert_eq!(OptimizerKind::default(), OptimizerKind::AdamW);
    assert!(matches!(TrainingMode::default(), TrainingMode::Pretrain));
    assert!(default_true());
}

#[test]
fn memory_fit_and_streaming() {
    let fits = MemoryEstimate { needed_bytes: 10, available_bytes: 10, device: "RAM" };
    assert!(fits.fits());
    let unknown = MemoryEstimate { needed_bytes: 10, available_bytes: 0, device: "RAM" };
    assert!(unknown.fits());
    let tight = MemoryEstimate { needed_bytes: 11, available_bytes: 10, device: "RAM" };
    assert!(!tight.fits());
    assert!(streams(OffloadMode::Auto, &tight));
    assert!(!streams(OffloadMode::Auto, &fits));
    assert!(streams(OffloadMode::On, &fits));
    assert!(!streams(OffloadMode::Off, &tight));
    let mut plan = OffloadPlan {
        streamed: true,
        in_memory: tight,
        device_bytes: 0,
        weights_bytes: 0,
        optimizer_bytes: 0,
        activation_bytes: 0,
        checkpoint_bytes: 0,
        disk_needed: 100,
        disk_free: None,
        offload_dir: "/tmp".to_string(),
    };
    assert!(plan.disk_fits());
    plan.disk_free = Some(99);
    assert!(!plan.disk_fits());
}

#[test]
fn estimate_uses_free_ram() {
    let shape = ModelShape {
        vocab_size: 10,
        hidden_size: 4,
        num_hidden_layers: 1,
        num_attention_heads: 2,
        num_key_value_heads: 1,
        intermediate_size: 8,
        max_position_embeddings: 3,
        num_experts: 0,
        num_experts_per_tok: 0,
        num_moe_layers: 0,
        moe_layer_freq: 0,
        tie_word_embeddings: false,
    };
    let budget = HardwareBudget {
        vram_total_bytes: 0,
        vram_free_bytes: 0,
        ram_total_bytes: 100,
        ram_free_bytes: 50,
        cpu_logical_cores: 4,
        disk_free_bytes: 0,
    };
    let e = estimate_memory(&shape, 2, Precision::Bf16, &budget);
    assert_eq!(e.needed_bytes, shape.training_memory_bytes(2, 3, 4));
    assert_eq!(e.available_bytes, 50);
    assert_eq!(e.device, "RAM");
}

#[test]
fn names_and_paths() {
    assert_eq!(optim_stage("layer.0003"), "optim.layer.0003");
    assert_eq!(act_key(3, 12), "act.0003.0012");
    assert_eq!(offload_dir("/runs/a", "offload"), "/runs/a/offload");
    assert_eq!(offload_dir("/runs/a/", "offload"), "/runs/a/offload");
    assert_eq!(offload_dir("/runs/a", "/mnt/off"), "/mnt/off");
}

#[test]
fn chunk_ranges_cover_the_total() {
    assert_eq!(chunks(10, 4), vec![(0, 4), (4, 4), (8, 2)]);
    assert_eq!(chunks(3, 0), vec![(0, 0), (1, 0), (2, 0)]);
    assert!(chunks(0, 5).is_empty());
}

#[test]
fn targets_in_a_window() {
    let batch = DataBatch {
        input_ids: vec![],
        labels: vec![vec![5, 0, 7, 8], vec![0, 9]],
        attention_mask: vec![],
    };
    assert_eq!(target_count(&batch, 0, 4), 4);
    assert_eq!(target_count(&batch, 1, 2), 2);
    assert_eq!(target_count(&batch, 3, 10), 1);
    assert_eq!(target_count(&batch, 9, 1), 0);
}

#[test]
fn offload_plan_of_a_small_model() {
    let shape = ModelShape {
        vocab_size: 100,
        hidden_size: 8,
        num_hidden_layers: 2,
        num_attention_heads: 2,
        num_key_value_heads: 2,
        intermediate_size: 16,
        max_position_embeddings: 4,
        num_experts: 0,
        num_experts_per_tok: 0,
        num_moe_layers: 0,
        moe_layer_freq: 0,
        tie_word_embeddings: false,
    };
    let budget = HardwareBudget {
        vram_total_bytes: 0,
        vram_free_bytes: 0,
        ram_total_bytes: 1 << 30,
        ram_free_bytes: 1 << 20,
        cpu_logical_cores: 4,
        disk_free_bytes: 0,
    };
    // 100*8 embedding, 2 layers of (4*64 attention + 16 norms + 384 ffn), 800 head, 8 norm.
    let total = 800 + 2 * (256 + 16 + 384) + 800 + 8;
    assert_eq!(shape.param_count(), total);
    let plan = quark::training::offload_plan(
        &shape,
        1,
        3,
        Precision::F32,
        OffloadMode::Auto,
        &budget,
        1000,
        "/run/offload".to_owned(),
        Some(30_000),
    );
    assert!(!plan.streamed, "the estimate fits in 1 MiB of RAM");
    assert_eq!(plan.in_memory.available_bytes, 1 << 20);
    // The largest stage is the 800-parameter embedding (a layer has 656); one
    // layer's activations (800 bytes) are below two head chunks.
    assert_eq!(plan.device_bytes, 12 * 800 + 4 * 2 * 67_108_864);
    assert_eq!(plan.weights_bytes, 4 * total);
    assert_eq!(plan.optimizer_bytes, 1000);
    assert_eq!(plan.activation_bytes, 3 * 3 * 4 * 8 * 4);
    assert_eq!(plan.checkpoint_bytes, 2 * (4 * total + 1000));
    assert_eq!(plan.disk_needed, 4 * total + 1000 + 1152 + 2 * (4 * total + 1000));
    assert_eq!(plan.offload_dir, "/run/offload");
    assert!(!plan.disk_fits());

    let forced = quark::training::offload_plan(
        &shape,
        0,
        0,
        Precision::F32,
        OffloadMode::On,
        &budget,
        0,
        "d".to_owned(),
        None,
    );
    assert!(forced.streamed);
    assert_eq!(forced.activation_bytes, 3 * 4 * 8 * 4);
    assert!(forced.disk_fits());
}

#[test]
fn steps_from_token_count() {
    assert_eq!(quark::training::estimate_steps(1000, 10, 4), 25);
    assert_eq!(quark::training::estimate_steps(1039, 10, 4), 25);
    assert_eq!(quark::training::estimate_steps(1000, 0, 4), 0);
    assert_eq!(quark::training::estimate_steps(1000, 10, 0), 0);
}
