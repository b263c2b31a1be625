use quark::data::catalog::{pick_python, python_candidates, HfDatasetCategory};
use quark::data::loader::{documents_of, path_extension, TextLoader};
use quark::data::pile::PileConfig;
use quark::data::pipeline::pretrain_batches_from;
use quark::data::sft::{example_from_encoding, sft_batches_from, SftExample};
use quark::memory::store::IoStats;
use quark::order::sort_strings;
use quark::paths::{data_dir_for, settings_path};
use quark::text::{lines_of, padded_usize, replace_str, trim_ws, usize_to_decimal};

#[test]
fn decimal_and_padding() {
    assert_eq!(usize_to_decimal(0), "0");
    assert_eq!(usize_to_decimal(90210), "90210");
    assert_eq!(padded_usize(7, 4), "0007");
    assert_eq!(padded_usize(123456, 4), "123456");
}

#[test]
fn trimming_and_lines() {
    assert_eq!(trim_ws("\u{3000} a b \t\n"), "a b");
    assert_eq!(lines_of("a\r\nb\n\nc\r"), vec!["a", "b", "", "c\r"]);
    assert!(lines_of("").is_empty());
    assert_eq!(lines_of("x\n"), vec!["x"]);
    assert_eq!(replace_str("aaa", "aa", "b"), "ba");
}

#[test]
fn sorting_strings() {
    let v = vec!["pear".to_string(), "Apple".to_string(), "apple".to_string(), "ä".to_string(), "pea".to_string()];
    assert_eq!(sort_strings(v), vec!["Apple", "apple", "pea", "pear", "ä"]);
}

#[test]
fn corpus_files_and_documents() {
    assert_eq!(path_extension("a/b.txt"), Some("txt".to_string()));
    assert_eq!(path_extension("a/.txt"), None);
    assert_eq!(path_extension("a.d/readme"), None);
    assert_eq!(path_extension("x.tar.jsonl"), Some("jsonl".to_string()));
    let loader = TextLoader::from_dir(
        vec!["d/a.txt".to_string(), "d/b.md".to_string(), "d/c.jsonl".to_string()],
        128,
    );
    assert_eq!(loader.num_files(), 2);
    assert_eq!(TextLoader::new(vec![], 8).num_files(), 0);
    let docs = documents_of("d/c.jsonl", "{\"text\": \"hello\"}\n\n  plain line  \n{\"id\": 1}\n");
    assert_eq!(docs, vec!["hello", "plain line", "{\"id\": 1}"]);
    assert_eq!(documents_of("d/a.txt", " whole \n"), vec![" whole \n"]);
    assert!(documents_of("d/a.txt", " \n ").is_empty());
}

#[test]
fn catalog_pile_and_stats() {
    assert_eq!(HfDatasetCategory::Code.label(), "🖥  Code");
    assert_eq!(python_candidates()[0], "python3");
    assert_eq!(pick_python(&vec![false, false, true, true, false]), "python3.12");
    assert_eq!(pick_python(&vec![false; 5]), "python3");
    let cfg = PileConfig::default_with("/d".to_string(), "python".to_string());
    assert_eq!(cfg.components, vec!["pile_reprod".to_string()]);
    assert_eq!(cfg.interleave_output, 30);
    let mut s = IoStats::default();
    s.record_read(10);
    s.record_write(u64::MAX);
    s.record_write(2);
    assert_eq!((s.read_bytes, s.write_bytes), (10, 1));
}

#[test]
fn data_directories() {
    assert_eq!(data_dir_for(Some("/home/u".to_string())), "/home/u/.quark");
    assert_eq!(data_dir_for(None), "./.quark");
    assert!(settings_path().ends_with("/.quark/settings.toml"));
}

#[test]
fn sft_examples_from_encodings() {
    // Transcript bytes 0..10 are context, 10..20 the assistant's turn.
    let ranges = vec![(10usize, 20usize)];
    let ids = vec![7u32, 8, 9];
    let offsets = vec![(0usize, 5usize), (5, 12), (12, 20)];
    let ex = example_from_encoding(&ranges, &ids, &offsets, 10).unwrap();
    assert_eq!(ex.ids, vec![1, 7, 8, 9]);
    assert_eq!(ex.trainable, vec![false, false, true, true]);
    assert!(example_from_encoding(&ranges, &ids, &offsets, 2).is_none());
    let cut = example_from_encoding(&ranges, &ids, &offsets, 3).unwrap();
    assert_eq!(cut.ids, vec![1, 7, 8]);
}

#[test]
fn batches_from_examples_and_sequences() {
    let ex = |n: u32| SftExample { ids: vec![1, n], trainable: vec![false, true] };
    let batches = sft_batches_from(vec![ex(5), ex(6), ex(7)], 42, 2, 0).unwrap();
    assert_eq!(batches.len(), 2);
    assert_eq!(batches[0].input_ids.len() + batches[1].input_ids.len(), 3);
    assert!(sft_batches_from(vec![], 1, 2, 0).is_err());
    let batches = pretrain_batches_from(vec![vec![5, 6, 7], vec![8]], 2, 2).unwrap();
    // stream 5 6 7 EOS 8 EOS → chunks [5,6] [7,2] [8,2] → batches of 2 and 1
    assert_eq!(batches.len(), 2);
    assert_eq!(batches[0].input_ids, vec![vec![5, 6], vec![7, 2]]);
    assert_eq!(batches[1].labels, vec![vec![2, 0]]);
    assert!(pretrain_batches_from(vec![], 4, 1).is_err());
    assert!(pretrain_batches_from(vec![vec![1]], 0, 1).is_err());
}
