//! Construction of the CRC-32 lookup tables from the generator polynomial.
use vstd::prelude::*;

use crate::model::{bit_step, bit_steps, is_level, level_entry, table_entry, POLY};

verus! {

/// Number of table levels; the word engine reads levels 0 to 3.
pub const LEVELS: usize = 8;

/// Entries per table level, one per byte value.
pub const ENTRIES: usize = 256;

/// Builds the 256-entry single-level table: entry `n` is `n` after eight
/// steps of bit-wise division by the polynomial.
pub fn build_table() -> (t: Vec<u32>)
    ensures
        is_level(t@, 0),
{
    let mut t: Vec<u32> = Vec::new();
    let mut n: u32 = 0;
    while n < 256
        invariant
            n <= 256,
            t@.len() == n,
            forall|i: int| 0 <= i < n ==> #[trigger] t@[i] == table_entry(i as u32),
        decreases 256 - n,
    {
        let mut c: u32 = n;
        let mut k: u32 = 0;
        while k < 8
            invariant
                k <= 8,
                c == bit_steps(n, k as nat),
            decreases 8 - k,
        {
            assert(bit_step(c) == bit_steps(n, (k + 1) as nat));
            if c & 1 == 1 {
                c = (c >> 1) ^ POLY;
            } else {
                c = c >> 1;
            }
            k += 1;
        }
        t.push(c);
        n += 1;
    }
    t
}

/// The eight table levels used by the word engine. Level 0 is the
/// single-level table; entry `n` of level `l` folds one zero byte into
/// entry `n` of level `l - 1`.
pub struct CrcTable {
    levels: Vec<Vec<u32>>,
}

impl CrcTable {
    #[verifier::type_invariant]
    spec fn wf(self) -> bool {
        &&& self.levels@.len() == LEVELS
        &&& forall|l: int| 0 <= l < LEVELS ==> (#[trigger] self.levels@[l])@.len() == ENTRIES
        &&& forall|l: int, n: int|
            0 <= l < LEVELS && 0 <= n < ENTRIES ==> #[trigger] self.levels@[l]@[n] == level_entry(
                l as nat,
                n as u32,
            )
    }

    /// Entry `index` of table level `level`.
    pub fn get(&self, level: usize, index: usize) -> (r: u32)
        requires
            level < LEVELS,
            index < ENTRIES,
        ensures
            r == level_entry(level as nat, index as u32),
    {
        proof {
            use_type_invariant(self);
        }
        self.levels[level][index]
    }

    /// Table level `level`, all 256 entries.
    pub fn level(&self, level: usize) -> (r: &Vec<u32>)
        requires
            level < LEVELS,
        ensures
            is_level(r@, level as nat),
    {
        proof {
            use_type_invariant(self);
        }
        &self.levels[level]
    }
}

/// Builds all eight table levels: level 0 by [`build_table`], and each
/// further level by `t[l][n] = t[0][t[l - 1][n] & 0xff] ^ (t[l - 1][n] >> 8)`.
pub fn build_tables() -> (t: CrcTable) {
    let mut levels: Vec<Vec<u32>> = Vec::new();
    levels.push(build_table());
    let mut l: usize = 1;
    while l < LEVELS
        invariant
            1 <= l <= LEVELS,
            levels@.len() == l,
            forall|i: int| 0 <= i < l ==> (#[trigger] levels@[i])@.len() == ENTRIES,
            forall|i: int, n: int|
                0 <= i < l && 0 <= n < ENTRIES ==> #[trigger] levels@[i]@[n] == level_entry(
                    i as nat,
                    n as u32,
                ),
        decreases LEVELS - l,
    {
        let mut row: Vec<u32> = Vec::new();
        let mut n: usize = 0;
        while n < ENTRIES
            invariant
                1 <= l < LEVELS,
                n <= ENTRIES,
                levels@.len() == l,
                forall|i: int| 0 <= i < l ==> (#[trigger] levels@[i])@.len() == ENTRIES,
                forall|i: int, m: int|
                    0 <= i < l && 0 <= m < ENTRIES ==> #[trigger] levels@[i]@[m] == level_entry(
                        i as nat,
                        m as u32,
                    ),
                row@.len() == n,
                forall|m: int| 0 <= m < n ==> #[trigger] row@[m] == level_entry(l as nat, m as u32),
            decreases ENTRIES - n,
        {
            let prev = levels[l - 1][n];
            let low = (prev & 0xff) as usize;
            assert(low < 256) by (bit_vector)
                requires low == (prev & 0xff) as usize;
            row.push(levels[0][low] ^ (prev >> 8));
            n += 1;
        }
        levels.push(row);
        l += 1;
    }
    CrcTable { levels }
}

} // verus!
