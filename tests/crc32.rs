use crc32_v2::byfour::crc32_little;
use crc32_v2::crc32;
use crc32_v2::crc32tables::{build_table, build_tables};

#[test]
fn empty_input_returns_seed() {
    for seed in [0u32, 1, 0x8BB9_8613, 0xffff_ffff, 0x1234_5678] {
        assert_eq!(crc32(seed, &[]), seed);
    }
}

#[test]
fn known_vector_four_bytes() {
    assert_eq!(crc32(0, &[0u8, 1, 2, 3]), 0x8BB98613);
}

#[test]
fn known_vector_hello() {
    assert_eq!(crc32(0, "Hello".as_bytes()), 0xF7D18982);
}

#[test]
fn known_vector_check_string() {
    assert_eq!(crc32(0, b"123456789"), 0xCBF43926);
}

#[test]
fn chaining_matches_whole_buffer() {
    let data = b"The quick brown fox jumps over the lazy dog";
    let whole = crc32(0, data);
    assert_eq!(whole, 0x414FA339);
    for split in 0..=data.len() {
        let (b1, b2) = data.split_at(split);
        assert_eq!(crc32(crc32(0, b1), b2), whole, "split {}", split);
        assert_eq!(crc32_little(crc32_little(0, b1), b2), whole, "split {}", split);
    }
}

#[test]
fn table_is_deterministic() {
    let a = build_table();
    let b = build_table();
    assert_eq!(a.len(), 256);
    assert_eq!(a, b);
    assert_eq!(a[0], 0);
    assert_eq!(a[1], 0x77073096);
    assert_eq!(a[255], 0x2D02EF8D);
    let ta = build_tables();
    let tb = build_tables();
    for level in 0..8usize {
        assert_eq!(ta.level(level), tb.level(level));
    }
    assert_eq!(ta.level(0), &a);
}

#[test]
fn levels_satisfy_fold_relation() {
    let t = build_tables();
    for level in 1..8usize {
        for n in 0..256usize {
            let prev = t.get(level - 1, n);
            assert_eq!(t.get(level, n), t.get(0, (prev & 0xff) as usize) ^ (prev >> 8));
        }
    }
    assert_eq!(t.get(1, 255), 0x9324FD72);
    assert_eq!(t.get(7, 1), 0xCCAA009E);
}
