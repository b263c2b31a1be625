use quark::data::batch::collate_batch;
use quark::data::packing::pack_sequences;

#[test]
fn collate_batch_pads_and_shifts() {
    let batch = collate_batch(vec![vec![5, 6, 7], vec![8]], 0);
    assert_eq!(batch.input_ids, vec![vec![5, 6, 7], vec![8, 0, 0]]);
    assert_eq!(batch.labels, vec![vec![6, 7, 0], vec![0, 0, 0]]);
    assert_eq!(batch.attention_mask, vec![vec![1, 1, 1], vec![1, 0, 0]]);
}

#[test]
fn collate_batch_of_nothing_is_empty() {
    let batch = collate_batch(vec![], 9);
    assert!(batch.input_ids.is_empty());
    let batch = collate_batch(vec![vec![]], 9);
    assert_eq!(batch.input_ids, vec![Vec::<u32>::new()]);
    assert_eq!(batch.labels, vec![Vec::<u32>::new()]);
}

#[test]
fn packing_splits_the_eos_stream_into_full_chunks() {
    let packed = pack_sequences(vec![vec![10, 11, 12], vec![20]], 2);
    // stream: 10 11 12 EOS 20 EOS
    assert_eq!(packed, vec![vec![10, 11], vec![12, 2], vec![20, 2]]);
    let packed = pack_sequences(vec![vec![10, 11, 12]], 3);
    assert_eq!(packed, vec![vec![10, 11, 12], vec![2]]);
    assert!(pack_sequences(vec![vec![1, 2]], 0).is_empty());
    assert!(pack_sequences(vec![], 4).is_empty());
}
