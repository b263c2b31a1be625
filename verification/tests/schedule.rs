use quark::schedule::{
    cache_limits, demo_batches, demo_ids, evaluates_at, finetune_paths, held_out_count, keep_latest, reports_at,
    saves_at, sort_by_step, step_note, BatchCursor, StepNote,
};

#[test]
fn about_one_percent_is_held_out() {
    assert_eq!(held_out_count(0), 0);
    assert_eq!(held_out_count(19), 0);
    assert_eq!(held_out_count(20), 1);
    assert_eq!(held_out_count(199), 1);
    assert_eq!(held_out_count(250), 2);
    assert_eq!(held_out_count(1000), 10);
}

#[test]
fn resume_places_the_cursor() {
    assert_eq!(BatchCursor::resume(3, 2, 4), BatchCursor { next: 2, epoch: 1 });
    assert_eq!(BatchCursor::resume(0, 4, 7), BatchCursor { next: 0, epoch: 0 });
    // Without batches every position counts as its own pass.
    assert_eq!(BatchCursor::resume(3, 2, 0), BatchCursor { next: 0, epoch: 6 });
}

#[test]
fn resumed_run_reads_what_an_uninterrupted_run_reads() {
    let total = 5;
    let mut fresh = BatchCursor::resume(0, 2, total);
    let mut fresh_reads = Vec::new();
    for _ in 0..12 {
        fresh_reads.push(fresh.advance(total).0);
    }
    let mut resumed = BatchCursor::resume(3, 2, total);
    let mut resumed_reads = Vec::new();
    for _ in 0..6 {
        resumed_reads.push(resumed.advance(total).0);
    }
    assert_eq!(resumed_reads, fresh_reads[6..].to_vec());
    assert_eq!(resumed_reads, vec![1, 2, 3, 4, 0, 1]);
    assert_eq!(resumed, fresh);
}

#[test]
fn advance_starts_a_new_pass_at_the_end() {
    let mut c = BatchCursor { next: 2, epoch: 0 };
    assert_eq!(c.advance(3), (2, false));
    assert_eq!(c, BatchCursor { next: 3, epoch: 0 });
    assert_eq!(c.advance(3), (0, true));
    assert_eq!(c, BatchCursor { next: 1, epoch: 1 });
}

#[test]
fn cadence_of_evaluation_saving_and_reports() {
    assert!(evaluates_at(200, 100, true));
    assert!(!evaluates_at(200, 100, false));
    assert!(!evaluates_at(150, 100, true));
    assert!(!evaluates_at(200, 0, true));
    assert!(saves_at(500, 1000, 500));
    assert!(!saves_at(1000, 1000, 500));
    assert!(!saves_at(500, 1000, 0));
    assert!(reports_at(1, 7));
    assert!(reports_at(5, 30));
    assert!(!reports_at(5, 31));
    assert_eq!(step_note(1, 100), StepNote::First);
    assert_eq!(step_note(2, 100), StepNote::Progress);
    assert_eq!(step_note(2, 101), StepNote::Quiet);
}

#[test]
fn demo_ids_count_round_the_vocabulary() {
    let (ids, labels, n) = demo_ids(2, 3, 5, 1);
    assert_eq!(ids, vec![1, 2, 3, 4, 0, 1]);
    assert_eq!(labels, vec![2, 3, 4, 0, 1, 2]);
    assert_eq!(n, 6);
}

#[test]
fn demo_batches_of_a_streamed_run() {
    let b = demo_batches(2, 16, 50);
    assert_eq!(b.len(), 8);
    assert_eq!(b[0].input_ids.len(), 2);
    assert_eq!(b[0].input_ids[0].len(), 16);
    assert_eq!(b[0].input_ids[1][0], 17);
    assert_eq!(b[1].input_ids[0][0], 131 % 50);
    assert_eq!(b[0].labels[0][0], 1);
    assert_eq!(b[0].labels[0][15], 0);
    let one = demo_batches(0, 1000, 50);
    assert_eq!(one[0].input_ids.len(), 1);
    assert_eq!(one[0].input_ids[0].len(), 64);
}

#[test]
fn streamed_caches_split_the_ram_limit() {
    assert_eq!(cache_limits(0), (1 << 29, 1 << 28));
    assert_eq!(cache_limits(8 << 30), (4 << 30, 2 << 30));
}

#[test]
fn only_the_latest_checkpoints_are_kept() {
    let mut saved = vec!["out/checkpoint-10".to_string()];
    assert!(keep_latest(&mut saved, "out/checkpoint-20".to_string()).is_empty());
    let retired = keep_latest(&mut saved, "out/checkpoint-30".to_string());
    assert_eq!(retired, vec!["out/checkpoint-10".to_string()]);
    assert_eq!(saved, vec!["out/checkpoint-20".to_string(), "out/checkpoint-30".to_string()]);
}

#[test]
fn found_checkpoints_are_ordered_by_step() {
    let found = vec![(5, "b".to_string()), (2, "z".to_string()), (5, "a".to_string()), (10, "c".to_string())];
    assert_eq!(
        sort_by_step(found),
        vec![(2, "z".to_string()), (5, "a".to_string()), (5, "b".to_string()), (10, "c".to_string())]
    );
}

#[test]
fn fine_tuning_never_writes_into_the_base() {
    let (tok, out) = finetune_paths("runs/base/checkpoint-9", "runs/base", "runs/base", false, true);
    assert_eq!(tok, "runs/base/tokenizer.json");
    assert_eq!(out, "runs/base/finetune");
    let (tok, out) = finetune_paths("runs/base/checkpoint-9", "runs/base", "runs/ft", true, false);
    assert_eq!(tok, "runs/base/checkpoint-9/tokenizer.json");
    assert_eq!(out, "runs/ft");
}
