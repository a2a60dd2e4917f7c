//! The word-at-a-time engine: input is read as little-endian 32-bit words and
//! each word is folded into the register with four lookups in table levels 3
//! to 0, in place of four dependent byte steps.
use vstd::prelude::*;

use crate::crc32tables::{build_tables, CrcTable};
use crate::fold_bytes;
use crate::lemmas::{
    lemma_crc_raw_append, lemma_word_fold, lemma_words_bytes_le, lemma_words_bytes_next,
};
use crate::model::{crc32_of, crc_raw, le_word_at, word_bytes, words_bytes};

verus! {

/// Folds the word `buf4[*buf4pos]` into the register `c`, its low byte
/// first, and advances `buf4pos` past it.
pub fn dolit4(c: &mut u32, buf4: &[u32], buf4pos: &mut usize, table: &CrcTable)
    requires
        *old(buf4pos) < buf4@.len(),
    ensures
        *final(buf4pos) == *old(buf4pos) + 1,
        *final(c) == crc_raw(*old(c), word_bytes(buf4@[*old(buf4pos) as int])),
{
    let c1 = *c ^ buf4[*buf4pos];
    proof {
        lemma_word_fold(*c, buf4@[*buf4pos as int]);
    }
    *buf4pos += 1;
    let i0 = (c1 & 0xff) as usize;
    let i1 = ((c1 >> 8) & 0xff) as usize;
    let i2 = ((c1 >> 16) & 0xff) as usize;
    let i3 = (c1 >> 24) as usize;
    assert(i0 < 256 && i1 < 256 && i2 < 256 && i3 < 256) by (bit_vector)
        requires
            i0 == (c1 & 0xff) as usize,
            i1 == ((c1 >> 8) & 0xff) as usize,
            i2 == ((c1 >> 16) & 0xff) as usize,
            i3 == (c1 >> 24) as usize;
    *c = table.get(3, i0) ^ table.get(2, i1) ^ table.get(1, i2) ^ table.get(0, i3);
}

/// Folds the eight words `buf4[*buf4pos..*buf4pos + 8]` (32 bytes) into the
/// register `c` and advances `buf4pos` past them.
pub fn dolit32(c: &mut u32, buf4: &[u32], buf4pos: &mut usize, table: &CrcTable)
    requires
        *old(buf4pos) + 8 <= buf4@.len(),
    ensures
        *final(buf4pos) == *old(buf4pos) + 8,
        *final(c) == crc_raw(
            *old(c),
            words_bytes(buf4@.subrange(*old(buf4pos) as int, *old(buf4pos) + 8)),
        ),
{
    let ghost c0 = *c;
    let ghost p0 = *buf4pos;
    assert(buf4@.subrange(p0 as int, p0 as int) =~= Seq::empty());
    let mut k: usize = 0;
    while k < 8
        invariant
            p0 + 8 <= buf4@.len(),
            k <= 8,
            *buf4pos == p0 + k,
            *c == crc_raw(c0, words_bytes(buf4@.subrange(p0 as int, *buf4pos as int))),
        decreases 8 - k,
    {
        proof {
            lemma_words_bytes_next(c0, buf4@, p0 as int, *buf4pos as int);
        }
        dolit4(c, buf4, buf4pos, table);
        k += 1;
    }
}

/// Reads `s8` as little-endian 32-bit words; trailing bytes that do not
/// fill a word are left out.
pub fn slice_u8_as_u32(s8: &[u8]) -> (r: Vec<u32>)
    ensures
        r@.len() == s8@.len() / 4,
        forall|i: int| 0 <= i < r@.len() ==> #[trigger] r@[i] == le_word_at(s8@, 4 * i),
{
    let mut r: Vec<u32> = Vec::new();
    let mut j: usize = 0;
    while s8.len() - j >= 4
        invariant
            j == 4 * r@.len(),
            j <= s8@.len(),
            forall|i: int| 0 <= i < r@.len() ==> #[trigger] r@[i] == le_word_at(s8@, 4 * i),
        decreases s8@.len() - j,
    {
        let w = (s8[j] as u32) | ((s8[j + 1] as u32) << 8) | ((s8[j + 2] as u32) << 16) | ((s8[j
            + 3] as u32) << 24);
        r.push(w);
        j += 4;
    }
    r
}

/// The CRC-32 of `buf` continued from the checksum `crc`, computed a word
/// at a time: 32-byte blocks, then single words, then the 0 to 3 bytes
/// that remain. It returns what [`crate::crc32`] returns on the same input.
///
/// Words are composed from the bytes by shifts, so the buffer needs no
/// particular alignment and no byte-wise lead-in before the first word.
pub fn crc32_little(crc: u32, buf: &[u8]) -> (r: u32)
    ensures
        r == crc32_of(crc, buf@),
{
    let table = build_tables();
    let mut len = buf.len();
    let c0: u32 = crc ^ 0xffff_ffff;
    let mut c: u32 = c0;

    let buf4 = slice_u8_as_u32(buf);
    let mut buf4pos: usize = 0;
    while len >= 32
        invariant
            buf4@.len() == buf@.len() / 4,
            forall|i: int| 0 <= i < buf4@.len() ==> #[trigger] buf4@[i] == le_word_at(buf@, 4 * i),
            len + 4 * buf4pos == buf@.len(),
            c == crc_raw(c0, buf@.subrange(0, 4 * buf4pos)),
        decreases len,
    {
        let ghost pb = buf4pos;
        dolit32(&mut c, buf4.as_slice(), &mut buf4pos, &table);
        proof {
            lemma_words_bytes_le(buf@, buf4@, pb as int, buf4pos as int);
            lemma_crc_raw_append(c0, buf@.subrange(0, 4 * pb), buf@.subrange(4 * pb, 4 * buf4pos));
            assert(buf@.subrange(0, 4 * buf4pos) =~= buf@.subrange(0, 4 * pb) + buf@.subrange(
                4 * pb,
                4 * buf4pos,
            ));
        }
        len -= 32;
    }
    while len >= 4
        invariant
            buf4@.len() == buf@.len() / 4,
            forall|i: int| 0 <= i < buf4@.len() ==> #[trigger] buf4@[i] == le_word_at(buf@, 4 * i),
            len + 4 * buf4pos == buf@.len(),
            c == crc_raw(c0, buf@.subrange(0, 4 * buf4pos)),
        decreases len,
    {
        let ghost pb = buf4pos;
        dolit4(&mut c, buf4.as_slice(), &mut buf4pos, &table);
        proof {
            lemma_words_bytes_le(buf@, buf4@, pb as int, buf4pos as int);
            assert(buf4@.subrange(pb as int, buf4pos as int) =~= seq![buf4@[pb as int]]);
            assert(words_bytes(seq![buf4@[pb as int]]) =~= word_bytes(buf4@[pb as int])) by {
                assert(seq![buf4@[pb as int]].drop_last() =~= Seq::empty());
            }
            lemma_crc_raw_append(c0, buf@.subrange(0, 4 * pb), buf@.subrange(4 * pb, 4 * buf4pos));
            assert(buf@.subrange(0, 4 * buf4pos) =~= buf@.subrange(0, 4 * pb) + buf@.subrange(
                4 * pb,
                4 * buf4pos,
            ));
        }
        len -= 4;
    }

    // now handle trailing bytes
    let bufpos = buf4pos * 4;
    let t = fold_bytes(c, buf, bufpos, table.level(0));
    proof {
        let (head, tail) = (buf@.subrange(0, bufpos as int), buf@.subrange(bufpos as int, buf@.len() as int));
        lemma_crc_raw_append(c0, head, tail);
        assert(head + tail =~= buf@);
    }
    t ^ 0xffff_ffff
}

} // verus!
