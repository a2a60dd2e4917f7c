//! Mathematical model of CRC-32: the bit-wise polynomial division step, the
//! lookup tables it induces, and the checksum of a byte sequence.
use vstd::prelude::*;

verus! {

/// The reflected IEEE 802.3 generator polynomial.
pub const POLY: u32 = 0xEDB88320;

/// One step of bit-wise polynomial division on a reflected register.
pub open spec fn bit_step(c: u32) -> u32 {
    if c & 1 == 1 {
        (c >> 1) ^ POLY
    } else {
        c >> 1
    }
}

/// `k` steps of bit-wise division starting from `c`.
pub open spec fn bit_steps(c: u32, k: nat) -> u32
    decreases k,
{
    if k == 0 {
        c
    } else {
        bit_step(bit_steps(c, (k - 1) as nat))
    }
}

/// Entry `n` of the single-level table: eight division steps from `n`.
pub open spec fn table_entry(n: u32) -> u32 {
    bit_steps(n, 8)
}

/// Folds one zero byte into a register with the single-level table.
pub open spec fn fold_zero(c: u32) -> u32 {
    table_entry(c & 0xff) ^ (c >> 8)
}

/// Entry `n` of table level `l`: level 0 is the single-level table and each
/// further level folds one more zero byte into the previous level's entry.
pub open spec fn level_entry(l: nat, n: u32) -> u32
    decreases l,
{
    if l == 0 {
        table_entry(n)
    } else {
        fold_zero(level_entry((l - 1) as nat, n))
    }
}

/// `t` is table level `l`: 256 entries, entry `n` being `level_entry(l, n)`.
pub open spec fn is_level(t: Seq<u32>, l: nat) -> bool {
    &&& t.len() == 256
    &&& forall|n: int| 0 <= n < 256 ==> #[trigger] t[n] == level_entry(l, n as u32)
}

/// Folds the data byte `b` into the (inverted) register `c`.
pub open spec fn byte_step(c: u32, b: u8) -> u32 {
    table_entry((c ^ (b as u32)) & 0xff) ^ (c >> 8)
}

/// The register after folding every byte of `s`, in order, into `c`.
pub open spec fn crc_raw(c: u32, s: Seq<u8>) -> u32
    decreases s.len(),
{
    if s.len() == 0 {
        c
    } else {
        byte_step(crc_raw(c, s.drop_last()), s.last())
    }
}

/// The CRC-32 of `s` continued from the checksum `seed`: the register is
/// inverted on entry and again on exit.
pub open spec fn crc32_of(seed: u32, s: Seq<u8>) -> u32 {
    crc_raw(seed ^ 0xffff_ffff, s) ^ 0xffff_ffff
}

/// One word-level step: the register mixed with the word `w`, folded through
/// table levels 3 to 0, one byte of the mix per level.
pub open spec fn word_fold(c: u32, w: u32) -> u32 {
    let x = c ^ w;
    level_entry(3, x & 0xff) ^ level_entry(2, (x >> 8) & 0xff) ^ level_entry(1, (x >> 16) & 0xff)
        ^ level_entry(0, x >> 24)
}

/// The four bytes of `w`, least significant first.
pub open spec fn word_bytes(w: u32) -> Seq<u8> {
    seq![(w & 0xff) as u8, ((w >> 8) & 0xff) as u8, ((w >> 16) & 0xff) as u8, (w >> 24) as u8]
}

/// The little-endian word made of the bytes `s[j..j + 4]`.
pub open spec fn le_word_at(s: Seq<u8>, j: int) -> u32 {
    (s[j] as u32) | ((s[j + 1] as u32) << 8) | ((s[j + 2] as u32) << 16) | ((s[j + 3] as u32) << 24)
}

/// The bytes of the words `ws`, each least significant byte first.
pub open spec fn words_bytes(ws: Seq<u32>) -> Seq<u8>
    decreases ws.len(),
{
    if ws.len() == 0 {
        Seq::empty()
    } else {
        words_bytes(ws.drop_last()) + word_bytes(ws.last())
    }
}

} // verus!
