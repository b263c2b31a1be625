use quark::checkpoint::QuantFormat;
use quark::quant::{dot_q4, dot_q8, level_at, pack_levels};

#[test]
fn packed_levels_read_back() {
    let levels: Vec<i32> = (-8..8).collect();
    let words = pack_levels(&levels, QuantFormat::Q4);
    assert_eq!(words.len(), 2);
    for (i, l) in levels.iter().enumerate() {
        assert_eq!(level_at(&words, i, QuantFormat::Q4), *l);
    }
    assert_eq!(pack_levels(&[0; 8], QuantFormat::Q4), vec![0x8888_8888]);

    let levels = [-128, 0, 1, 127];
    let words = pack_levels(&levels, QuantFormat::Q8);
    assert_eq!(words, vec![0xFF81_8000]);
    for (i, l) in levels.iter().enumerate() {
        assert_eq!(level_at(&words, i, QuantFormat::Q8), *l);
    }
}

#[test]
fn integer_dot_products() {
    assert_eq!(dot_q8(&[2, 255], &[-3, 1]), 249);
    assert_eq!(dot_q8(&[1, 2, 3], &[1, 1]), 3);
    assert_eq!(dot_q4(&[0x21], &[3, 5]), 13);
    assert_eq!(dot_q4(&[0xF0, 0x01], &[1, 2, 3]), 30);
    assert_eq!(dot_q4(&[0xFF; 4], &[-128; 8]), 4 * 2 * 15 * -128);
}
