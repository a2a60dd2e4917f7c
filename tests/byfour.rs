use crc32_v2::byfour::{crc32_little, dolit32, dolit4, slice_u8_as_u32};
use crc32_v2::crc32;
use crc32_v2::crc32tables::build_tables;

#[test]
fn test_dolit4() {
    let mut crc = 0u32;
    let buf = [0u8, 1u8, 2u8, 3u8];
    let buf4 = slice_u8_as_u32(&buf);
    let mut buf4pos = 0;
    let table = build_tables();
    dolit4(&mut crc, &buf4, &mut buf4pos, &table);
    assert_eq!(crc, 0xAAFD590F);
}

#[test]
fn test_dolit32() {
    let mut crc = 0u32;
    let buf = [0u8; 32];
    let buf4 = slice_u8_as_u32(&buf);
    let mut buf4pos = 0;
    let table = build_tables();
    dolit32(&mut crc, &buf4, &mut buf4pos, &table);
    assert_eq!(crc, 0);
}

#[test]
fn test_crc32_little() {
    // The word engine agrees with the byte engine: crc32 gives 0x8BB98613 here.
    let crc = crc32_little(0, &[0u8, 1u8, 2u8, 3u8]);
    assert_eq!(crc, 0x8BB98613);
}

#[test]
fn test_crc32() {
    // Known data: [0, 1, 2, 3]
    let crc = crc32(0, &[0u8, 1u8, 2u8, 3u8]);
    assert_eq!(crc, 0x8BB98613);

    // Test with an empty byte array
    let empty_data: Vec<u8> = vec![];
    let computed_crc = crc32(0, &empty_data);
    assert_eq!(computed_crc, 0);

    // Test with the string "Hello"
    let hello_data = b"Hello";
    let computed_crc_hello = crc32(0, hello_data);
    assert_eq!(computed_crc_hello, 0xf7d18982);
}

#[test]
fn test_slice_u8_as_u32() {
    let bytes = [0u8, 1u8, 2u8, 3u8, 4u8, 5u8, 6u8, 7u8];
    let u32_slice = slice_u8_as_u32(&bytes);
    assert_eq!(u32_slice, &[50462976u32, 117835012u32]);
}

#[test]
fn slice_u8_as_u32_drops_partial_word() {
    let bytes = [0xffu8, 0, 0, 0x80, 9, 9];
    assert_eq!(slice_u8_as_u32(&bytes), vec![0x8000_00ffu32]);
    assert!(slice_u8_as_u32(&[1u8, 2, 3]).is_empty());
    assert!(slice_u8_as_u32(&[]).is_empty());
}

#[test]
fn dolit4_advances_position() {
    let table = build_tables();
    let words = [0u32, 0x0302_0100];
    let mut crc = 0u32;
    let mut pos = 1usize;
    dolit4(&mut crc, &words, &mut pos, &table);
    assert_eq!(pos, 2);
    assert_eq!(crc, 0xAAFD590F);
}

#[test]
fn dolit32_matches_byte_engine() {
    let bytes: Vec<u8> = (0u8..32).collect();
    let words = slice_u8_as_u32(&bytes);
    let table = build_tables();
    let mut crc = 0xffff_ffffu32;
    let mut pos = 0usize;
    dolit32(&mut crc, &words, &mut pos, &table);
    assert_eq!(pos, 8);
    assert_eq!(crc ^ 0xffff_ffff, 0x9126_7E8A);
    assert_eq!(crc ^ 0xffff_ffff, crc32(0, &bytes));
}

#[test]
fn crc32_little_empty_keeps_seed() {
    assert_eq!(crc32_little(0, &[]), 0);
    assert_eq!(crc32_little(0x1234_5678, &[]), 0x1234_5678);
    assert_eq!(crc32_little(0xffff_ffff, &[]), 0xffff_ffff);
}

#[test]
fn crc32_little_known_vectors() {
    assert_eq!(crc32_little(0, b"Hello"), 0xF7D18982);
    assert_eq!(crc32_little(0, b"123456789"), 0xCBF43926);
}

fn pseudo_random_bytes(n: usize, mut state: u32) -> Vec<u8> {
    let mut v = Vec::with_capacity(n);
    for _ in 0..n {
        state = state.wrapping_mul(1_664_525).wrapping_add(1_013_904_223);
        v.push((state >> 24) as u8);
    }
    v
}

#[test]
fn engines_agree_on_lengths_up_to_300() {
    for len in 0..=300usize {
        let data = pseudo_random_bytes(len, len as u32 + 7);
        assert_eq!(crc32(0, &data), crc32_little(0, &data), "length {}", len);
        assert_eq!(crc32(0xdead_beef, &data), crc32_little(0xdead_beef, &data), "length {}", len);
    }
}

#[test]
fn engines_agree_at_every_offset() {
    let data = pseudo_random_bytes(100, 42);
    for start in 0..8usize {
        let part = &data[start..];
        assert_eq!(crc32(0, part), crc32_little(0, part), "offset {}", start);
    }
}
