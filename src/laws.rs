//! Laws of the checksum and its tables, stated over the model.
use vstd::prelude::*;

use crate::lemmas::{lemma_crc_raw_append, lemma_table_zero};
use crate::model::{crc32_of, crc_raw, is_level, level_entry};

verus! {

/// The checksum of the empty sequence is the seed, whatever the seed.
pub proof fn lemma_empty_is_identity(seed: u32)
    ensures
        crc32_of(seed, Seq::empty()) == seed,
{
    assert((seed ^ 0xffff_ffff) ^ 0xffff_ffff == seed) by (bit_vector);
}

/// Chaining: the checksum of `b2` seeded with the checksum of `b1` is the
/// checksum of `b1 + b2`. The inversion on exit of the first call cancels
/// the inversion on entry of the second.
pub proof fn lemma_chaining(seed: u32, b1: Seq<u8>, b2: Seq<u8>)
    ensures
        crc32_of(crc32_of(seed, b1), b2) == crc32_of(seed, b1 + b2),
{
    let r = crc_raw(seed ^ 0xffff_ffff, b1);
    assert((r ^ 0xffff_ffff) ^ 0xffff_ffff == r) by (bit_vector);
    lemma_crc_raw_append(seed ^ 0xffff_ffff, b1, b2);
}

/// Table construction is deterministic: two sequences that are both table
/// level `l` are equal.
pub proof fn lemma_level_unique(a: Seq<u32>, b: Seq<u32>, l: nat)
    requires
        is_level(a, l),
        is_level(b, l),
    ensures
        a == b,
{
    assert(a =~= b);
}

/// Entry 0 of the single-level table is 0.
pub proof fn lemma_first_entry_zero()
    ensures
        level_entry(0, 0) == 0,
{
    lemma_table_zero();
}

/// Each table level above 0 folds the level below through level 0:
/// `t[l][n] == t[0][t[l - 1][n] & 0xff] ^ (t[l - 1][n] >> 8)`.
pub proof fn lemma_level_fold(l: nat, n: u32)
    requires
        1 <= l < 8,
        n < 256,
    ensures
        level_entry(l, n) == level_entry(0, level_entry((l - 1) as nat, n) & 0xff) ^ (level_entry(
            (l - 1) as nat,
            n,
        ) >> 8),
{
}

} // verus!
