//! Facts about the CRC-32 model: linearity of the division step over xor,
//! and the equivalence of one word-level table fold with four byte steps.
use vstd::prelude::*;

use crate::model::{
    bit_step, bit_steps, byte_step, crc_raw, fold_zero, le_word_at, level_entry, table_entry,
    word_bytes, word_fold, words_bytes,
};

verus! {

proof fn lemma_bit_step_xor(a: u32, b: u32)
    ensures
        bit_step(a ^ b) == bit_step(a) ^ bit_step(b),
{
    assert(bit_step(a ^ b) == bit_step(a) ^ bit_step(b)) by (bit_vector);
}

proof fn lemma_bit_steps_xor(a: u32, b: u32, k: nat)
    ensures
        bit_steps(a ^ b, k) == bit_steps(a, k) ^ bit_steps(b, k),
    decreases k,
{
    if k > 0 {
        lemma_bit_steps_xor(a, b, (k - 1) as nat);
        lemma_bit_step_xor(bit_steps(a, (k - 1) as nat), bit_steps(b, (k - 1) as nat));
    }
}

proof fn lemma_bit_steps_zero(k: nat)
    ensures
        bit_steps(0, k) == 0,
    decreases k,
{
    if k > 0 {
        lemma_bit_steps_zero((k - 1) as nat);
        assert(bit_step(0) == 0) by (bit_vector);
    }
}

/// The single-level table is linear over xor.
pub proof fn lemma_table_xor(a: u32, b: u32)
    ensures
        table_entry(a ^ b) == table_entry(a) ^ table_entry(b),
{
    lemma_bit_steps_xor(a, b, 8);
}

/// The table entry of zero is zero.
pub proof fn lemma_table_zero()
    ensures
        table_entry(0) == 0,
{
    lemma_bit_steps_zero(8);
}

/// Folding a zero byte is linear over xor.
pub proof fn lemma_fold_zero_xor(a: u32, b: u32)
    ensures
        fold_zero(a ^ b) == fold_zero(a) ^ fold_zero(b),
{
    let (la, lb) = (a & 0xff, b & 0xff);
    assert((a ^ b) & 0xff == la ^ lb) by (bit_vector)
        requires la == a & 0xff, lb == b & 0xff;
    lemma_table_xor(la, lb);
    let (ta, tb) = (table_entry(la), table_entry(lb));
    assert((ta ^ tb) ^ ((a ^ b) >> 8) == (ta ^ (a >> 8)) ^ (tb ^ (b >> 8))) by (bit_vector);
}

/// Folding a zero byte into `v << 8` gives back `v`.
pub proof fn lemma_fold_zero_shifted(v: u32)
    requires
        v < 0x100_0000,
    ensures
        fold_zero(v << 8) == v,
{
    assert((v << 8) & 0xff == 0) by (bit_vector);
    assert((v << 8) >> 8 == v) by (bit_vector)
        requires v < 0x100_0000;
    lemma_table_zero();
    assert(0 ^ v == v) by (bit_vector);
}

/// A byte step is a zero-byte fold of the register with the byte mixed in.
pub proof fn lemma_byte_step_as_fold(c: u32, b: u8)
    ensures
        byte_step(c, b) == fold_zero(c ^ (b as u32)),
{
    assert((c ^ (b as u32)) >> 8 == c >> 8) by (bit_vector);
}

/// Folding a zero byte into `r ^ v` is the byte step of `r` with the low
/// byte of `v`, with the rest of `v` moved down one byte.
pub proof fn lemma_fold_zero_split(r: u32, v: u32)
    ensures
        fold_zero(r ^ v) == byte_step(r, (v & 0xff) as u8) ^ (v >> 8),
{
    let lo = (v & 0xff) as u8;
    let hi = v >> 8;
    assert(r ^ v == (r ^ (lo as u32)) ^ (hi << 8)) by (bit_vector)
        requires lo == (v & 0xff) as u8, hi == v >> 8;
    assert(hi < 0x100_0000) by (bit_vector)
        requires hi == v >> 8;
    lemma_fold_zero_xor(r ^ (lo as u32), hi << 8);
    lemma_fold_zero_shifted(hi);
    lemma_byte_step_as_fold(r, lo);
}

/// Folding one more byte into the register.
pub proof fn lemma_crc_raw_push(c: u32, s: Seq<u8>, b: u8)
    ensures
        crc_raw(c, s.push(b)) == byte_step(crc_raw(c, s), b),
{
    assert(s.push(b).drop_last() =~= s);
}

/// Folding a concatenation is folding its parts in turn.
pub proof fn lemma_crc_raw_append(c: u32, a: Seq<u8>, b: Seq<u8>)
    ensures
        crc_raw(c, a + b) == crc_raw(crc_raw(c, a), b),
    decreases b.len(),
{
    if b.len() == 0 {
        assert(a + b =~= a);
    } else {
        lemma_crc_raw_append(c, a, b.drop_last());
        assert((a + b).drop_last() =~= a + b.drop_last());
    }
}

/// Four zero-byte folds of `c ^ w` are the four byte steps of the bytes of `w`.
proof fn lemma_word_as_bytes(c: u32, w: u32)
    ensures
        fold_zero(fold_zero(fold_zero(fold_zero(c ^ w)))) == crc_raw(c, word_bytes(w)),
{
    let s = word_bytes(w);
    let (w1, w2, w3) = (w >> 8, w >> 16, w >> 24);
    assert(w1 >> 8 == w2 && w2 >> 8 == w3 && w3 >> 8 == 0 && w3 & 0xff == w3) by (bit_vector)
        requires w1 == w >> 8, w2 == w >> 16, w3 == w >> 24;
    let s1 = byte_step(c, s[0]);
    lemma_fold_zero_split(c, w);
    let s2 = byte_step(s1, s[1]);
    lemma_fold_zero_split(s1, w1);
    let s3 = byte_step(s2, s[2]);
    lemma_fold_zero_split(s2, w2);
    let s4 = byte_step(s3, s[3]);
    lemma_fold_zero_split(s3, w3);
    assert(s4 ^ 0 == s4) by (bit_vector);
    let e = Seq::<u8>::empty();
    assert(crc_raw(c, e) == c);
    lemma_crc_raw_push(c, e, s[0]);
    lemma_crc_raw_push(c, e.push(s[0]), s[1]);
    lemma_crc_raw_push(c, e.push(s[0]).push(s[1]), s[2]);
    lemma_crc_raw_push(c, e.push(s[0]).push(s[1]).push(s[2]), s[3]);
    assert(e.push(s[0]).push(s[1]).push(s[2]).push(s[3]) =~= s);
}

/// Four zero-byte folds of `x` split into one lookup per byte of `x`, the
/// low byte in level 3 and the high byte in level 0.
proof fn lemma_four_folds(x: u32)
    ensures
        fold_zero(fold_zero(fold_zero(fold_zero(x)))) == level_entry(3, x & 0xff) ^ level_entry(
            2,
            (x >> 8) & 0xff,
        ) ^ level_entry(1, (x >> 16) & 0xff) ^ level_entry(0, x >> 24),
{
    let (x0, x1, x2, x3) = (x & 0xff, (x >> 8) & 0xff, (x >> 16) & 0xff, x >> 24);
    let (h1, h2, h3) = (x >> 8, x >> 16, x >> 24);
    assert(h1 >> 8 == h2 && h2 >> 8 == h3 && h3 >> 8 == 0 && h3 & 0xff == x3 && h1 & 0xff == x1
        && h2 & 0xff == x2) by (bit_vector)
        requires h1 == x >> 8, h2 == x >> 16, h3 == x >> 24, x1 == (x >> 8) & 0xff,
            x2 == (x >> 16) & 0xff, x3 == x >> 24;
    let (a0, a1, a2, a3) = (level_entry(0, x0), level_entry(1, x0), level_entry(2, x0), level_entry(3, x0));
    let (b0, b1, b2) = (level_entry(0, x1), level_entry(1, x1), level_entry(2, x1));
    let (c0, c1) = (level_entry(0, x2), level_entry(1, x2));
    let d0 = level_entry(0, x3);
    // first fold: by definition
    let f1 = fold_zero(x);
    assert(f1 == a0 ^ h1);
    // second fold
    lemma_fold_zero_xor(a0, h1);
    let f2 = fold_zero(f1);
    assert(f2 == a1 ^ (b0 ^ h2));
    // third fold
    lemma_fold_zero_xor(b0, h2);
    lemma_fold_zero_xor(a1, b0 ^ h2);
    let f3 = fold_zero(f2);
    assert(f3 == a2 ^ (b1 ^ (c0 ^ h3)));
    // fourth fold
    lemma_fold_zero_xor(c0, h3);
    lemma_fold_zero_xor(b1, c0 ^ h3);
    lemma_fold_zero_xor(a2, b1 ^ (c0 ^ h3));
    let f4 = fold_zero(f3);
    assert(f4 == a3 ^ (b2 ^ (c1 ^ (d0 ^ 0))));
    assert(a3 ^ (b2 ^ (c1 ^ (d0 ^ 0))) == a3 ^ b2 ^ c1 ^ d0) by (bit_vector);
}

/// One word-level table step is the four byte steps of the word's bytes, low
/// byte first: the reason the word engine and the byte engine agree.
pub proof fn lemma_word_fold(c: u32, w: u32)
    ensures
        word_fold(c, w) == crc_raw(c, word_bytes(w)),
{
    lemma_word_as_bytes(c, w);
    lemma_four_folds(c ^ w);
}

/// The bytes of a little-endian word read from `s` at `j` are `s[j..j + 4]`.
pub proof fn lemma_word_bytes_le(s: Seq<u8>, j: int)
    requires
        0 <= j,
        j + 4 <= s.len(),
    ensures
        word_bytes(le_word_at(s, j)) =~= s.subrange(j, j + 4),
{
    let (b0, b1, b2, b3) = (s[j], s[j + 1], s[j + 2], s[j + 3]);
    let w = le_word_at(s, j);
    assert((w & 0xff) as u8 == b0 && ((w >> 8) & 0xff) as u8 == b1 && ((w >> 16) & 0xff) as u8
        == b2 && (w >> 24) as u8 == b3) by (bit_vector)
        requires w == (b0 as u32) | ((b1 as u32) << 8) | ((b2 as u32) << 16) | ((b3 as u32) << 24);
}

/// The bytes of the words `ws[p..q]`, where each `ws[i]` is the
/// little-endian word of `s` at `4 * i`, are `s[4 * p..4 * q]`.
pub proof fn lemma_words_bytes_le(s: Seq<u8>, ws: Seq<u32>, p: int, q: int)
    requires
        0 <= p <= q <= ws.len(),
        4 * ws.len() <= s.len(),
        forall|i: int| 0 <= i < ws.len() ==> #[trigger] ws[i] == le_word_at(s, 4 * i),
    ensures
        words_bytes(ws.subrange(p, q)) =~= s.subrange(4 * p, 4 * q),
    decreases q - p,
{
    if q > p {
        lemma_words_bytes_le(s, ws, p, q - 1);
        assert(ws.subrange(p, q).drop_last() =~= ws.subrange(p, q - 1));
        lemma_word_bytes_le(s, 4 * (q - 1));
        assert(s.subrange(4 * p, 4 * q) =~= s.subrange(4 * p, 4 * (q - 1)) + s.subrange(
            4 * (q - 1),
            4 * q,
        ));
    }
}

/// Folding the words `ws[p..q + 1]` is folding `ws[p..q]`, then the bytes of `ws[q]`.
pub proof fn lemma_words_bytes_next(c: u32, ws: Seq<u32>, p: int, q: int)
    requires
        0 <= p <= q < ws.len(),
    ensures
        crc_raw(c, words_bytes(ws.subrange(p, q + 1))) == crc_raw(
            crc_raw(c, words_bytes(ws.subrange(p, q))),
            word_bytes(ws[q]),
        ),
{
    assert(ws.subrange(p, q + 1).drop_last() =~= ws.subrange(p, q));
    lemma_crc_raw_append(c, words_bytes(ws.subrange(p, q)), word_bytes(ws[q]));
}

} // verus!
