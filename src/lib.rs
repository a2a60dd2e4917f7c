//! Table-driven CRC-32 (IEEE 802.3, reflected polynomial `0xEDB88320`).
//!
//! The byte-wise engine is [`crc32`]; the word-at-a-time engine is
//! [`byfour::crc32_little`]. Both are proved to compute [`model::crc32_of`].
use vstd::prelude::*;

pub mod byfour;
pub mod crc32tables;
pub mod laws;
pub mod lemmas;
pub mod model;

use crate::crc32tables::build_table;
use crate::lemmas::lemma_crc_raw_push;
use crate::model::{crc32_of, crc_raw, is_level};

verus! {

/// Folds the bytes `buf[pos..]` into the register `c`, one table lookup per
/// byte, and returns the register.
pub(crate) fn fold_bytes(c: u32, buf: &[u8], pos: usize, t0: &Vec<u32>) -> (r: u32)
    requires
        pos <= buf@.len(),
        is_level(t0@, 0),
    ensures
        r == crc_raw(c, buf@.subrange(pos as int, buf@.len() as int)),
{
    let len = buf.len();
    let mut crc = c;
    let mut bufpos: usize = pos;
    let mut remaining_bytes: usize = len - pos;
    while remaining_bytes > 0
        invariant
            len == buf@.len(),
            pos <= bufpos <= len,
            bufpos + remaining_bytes == len,
            is_level(t0@, 0),
            crc == crc_raw(c, buf@.subrange(pos as int, bufpos as int)),
        decreases remaining_bytes,
    {
        let b = buf[bufpos];
        let b32 = b as u32;
        let b_index = (crc ^ b32) & 0xff;
        assert(b_index < 256) by (bit_vector)
            requires b_index == (crc ^ b32) & 0xff;
        let t = t0[b_index as usize];
        proof {
            lemma_crc_raw_push(c, buf@.subrange(pos as int, bufpos as int), b);
            assert(buf@.subrange(pos as int, bufpos + 1) =~= buf@.subrange(pos as int, bufpos as int).push(b));
        }
        crc = t ^ (crc >> 8);
        bufpos += 1;
        remaining_bytes -= 1;
    }
    crc
}

/// The CRC-32 of `buf` continued from the checksum `start_crc` (0 for a
/// fresh checksum), one byte at a time. The register is inverted on entry
/// and on exit, so the result of one call is the seed of the next.
pub fn crc32(start_crc: u32, buf: &[u8]) -> (r: u32)
    ensures
        r == crc32_of(start_crc, buf@),
{
    let t0 = build_table();
    let crc = fold_bytes(start_crc ^ 0xffff_ffff, buf, 0, &t0);
    assert(buf@.subrange(0, buf@.len() as int) =~= buf@);
    crc ^ 0xffff_ffff
}

} // verus!
