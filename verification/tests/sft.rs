use quark::data::sft::{collate_sft, sft_batches_from, SftExample};

#[test]
fn labels_cover_only_assistant_tokens() {
    let ex = SftExample {
        ids: vec![1, 10, 11, 20, 21, 12],
        trainable: vec![false, false, false, true, true, false],
    };
    let batch = collate_sft(&[ex], 0);
    // position i predicts token i+1; only tokens 20 and 21 are targets
    assert_eq!(batch.labels[0], vec![0, 0, 20, 21, 0, 0]);
    assert_eq!(batch.input_ids[0], vec![1, 10, 11, 20, 21, 12]);
}

#[test]
fn collate_pads_to_longest() {
    let a = SftExample { ids: vec![1, 5, 6], trainable: vec![false, true, true] };
    let b = SftExample { ids: vec![1, 7], trainable: vec![false, true] };
    let batch = collate_sft(&[a, b], 0);
    assert_eq!(batch.input_ids[1], vec![1, 7, 0]);
    assert_eq!(batch.labels[1], vec![7, 0, 0]);
    assert_eq!(batch.attention_mask[1], vec![1, 1, 0]);
}

#[test]
fn collate_sft_of_nothing_is_empty() {
    let batch = collate_sft(&[], 0);
    assert!(batch.input_ids.is_empty() && batch.labels.is_empty() && batch.attention_mask.is_empty());
}

fn examples() -> Vec<SftExample> {
    (1..=7u32).map(|k| SftExample { ids: vec![1, 100 + k], trainable: vec![false, true] }).collect()
}

#[test]
fn the_same_seed_gives_the_same_batches() {
    let a = sft_batches_from(examples(), 42, 3, 0).unwrap();
    let b = sft_batches_from(examples(), 42, 3, 0).unwrap();
    assert_eq!(a.len(), 3);
    let rows = |bs: &Vec<quark::data::batch::DataBatch>| bs.iter().map(|b| b.input_ids.clone()).collect::<Vec<_>>();
    assert_eq!(rows(&a), rows(&b));
    let mut seen: Vec<u32> = rows(&a).into_iter().flatten().map(|r| r[1]).collect();
    seen.sort();
    assert_eq!(seen, (101..=107).collect::<Vec<u32>>());
    assert_eq!(a[2].input_ids.len(), 1);
}

#[test]
fn no_examples_is_an_error() {
    assert!(sft_batches_from(vec![], 7, 2, 0).is_err());
}
