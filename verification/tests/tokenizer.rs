use std::str::FromStr;

use quark::tokenizer::{try_sample_line, QuarkTokenizer, SampleTally};

fn tiny() -> QuarkTokenizer {
    let json = r#"{"version":"1.0","truncation":null,"padding":null,"added_tokens":[],"normalizer":null,"pre_tokenizer":{"type":"Whitespace"},"post_processor":null,"decoder":null,"model":{"type":"WordLevel","vocab":{"[UNK]":0,"hello":1,"world":2},"unk_token":"[UNK]"}}"#;
    QuarkTokenizer::from_tokenizer(tokenizers::Tokenizer::from_str(json).unwrap())
}

#[test]
fn vocab_size_counts_the_vocabulary() {
    assert_eq!(tiny().vocab_size(), 3);
}

#[test]
fn decode_gives_the_tokens_text() {
    assert_eq!(tiny().decode(&[1, 2]).unwrap(), "hello world");
    assert_eq!(tiny().decode(&[]).unwrap(), "");
}

#[test]
fn encode_gives_the_token_ids() {
    let t = tiny();
    assert_eq!(t.encode("hello world").unwrap(), vec![1, 2]);
    assert_eq!(t.encode("hello there").unwrap(), vec![1, 0]);
    let (ids, offsets) = t.encode_with_offsets("world hello").unwrap();
    assert_eq!(ids, vec![2, 1]);
    assert_eq!(offsets, vec![(0, 5), (6, 11)]);
}

#[test]
fn sampling_stops_short_of_overflowing_the_counts() {
    let mut t = SampleTally::new();
    assert_eq!(try_sample_line(&mut t, "  hello ", false, 0), Some(Some("hello".to_string())));
    assert_eq!((t.written_bytes, t.docs, t.hit_cap), (6, 1, false));
    assert_eq!(try_sample_line(&mut t, "   ", false, 0), Some(None));
    t.written_bytes = u64::MAX - 3;
    assert_eq!(try_sample_line(&mut t, "hello", false, 0), None);
    assert_eq!(t.written_bytes, u64::MAX - 3);
    assert_eq!(try_sample_line(&mut t, "hi", false, 0), Some(Some("hi".to_string())));
    assert_eq!(t.written_bytes, u64::MAX);
}
