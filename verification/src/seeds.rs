//! The deterministic tile-spawn sequence.
//!
//! From an initial seed, the quadratic residue recurrence
//! `seed -> seed * seed mod 50515093` produces one entry per ply.  An
//! entry fixes where the next tile goes (its seed, reduced modulo the
//! number of empty cells) and what it is (exponent 1 unless bit 4 of
//! the seed is set, then exponent 2).  Equal initial seeds give equal
//! sequences, which makes every game trace reproducible.

use vstd::prelude::*;

verus! {

/// The recurrence modulus.
pub const SEED_MOD: u64 = 50515093;

/// How many plies the table covers.
pub const SEED_COUNT: usize = 100000;

/// One ply of the spawn sequence.
#[derive(Clone, Copy, Debug)]
pub struct Seed {
    pub seed: u64,
    pub value: u8,
}

/// The seed one step further along the recurrence.
pub open spec fn next_seed(s: u64) -> u64 {
    ((s * s) % (SEED_MOD as int)) as u64
}

/// The seed `i` steps along the recurrence from `s0`.
pub open spec fn seed_iter(s0: u64, i: int) -> u64
    decreases i,
{
    if i <= 0 {
        s0
    } else {
        next_seed(seed_iter(s0, i - 1))
    }
}

/// The tile exponent an entry spawns: 1, or 2 when bit 4 of its seed
/// is set.
pub open spec fn seed_value(s: u64) -> u8 {
    if s & 0x10 == 0 {
        1u8
    } else {
        2u8
    }
}

/// The full sequence of `n` entries from initial seed `s0`.
pub open spec fn seed_seq(s0: u64, n: nat) -> Seq<Seed> {
    Seq::new(n, |i: int| Seed { seed: seed_iter(s0, i), value: seed_value(seed_iter(s0, i)) })
}

/// Every entry's value matches its seed.
pub open spec fn seeds_wf(s: Seq<Seed>) -> bool {
    forall|i: int| 0 <= i < s.len() ==> (#[trigger] s[i]).value == seed_value(s[i].seed)
}

/// The precomputed spawn sequence.
pub struct SeedTable {
    pub entries: Vec<Seed>,
}

impl SeedTable {
    /// The table is exactly the sequence of some initial seed.
    pub open spec fn wf(self) -> bool {
        seeds_wf(self.entries@)
    }
}

/// Builds the spawn table for an initial seed.  The seed must fit in
/// 32 bits so that squaring it cannot overflow; every later seed is a
/// residue below the modulus.
pub fn set_seed(seed: u64) -> (t: SeedTable)
    requires
        seed < 0x1_0000_0000,
    ensures
        t.entries@ == seed_seq(seed, SEED_COUNT as nat),
        t.wf(),
        t.entries@.len() == SEED_COUNT,
{
    let mut entries: Vec<Seed> = Vec::new();
    let mut s: u64 = seed;
    let mut i: usize = 0;
    while i < SEED_COUNT
        invariant
            i <= SEED_COUNT,
            entries@.len() == i,
            s == seed_iter(seed, i as int),
            s < 0x1_0000_0000,
            entries@ == seed_seq(seed, i as nat),
        decreases SEED_COUNT - i,
    {
        entries.push(Seed { seed: s, value: if s & 0x10 == 0 { 1 } else { 2 } });
        proof {
            assert(entries@ =~= seed_seq(seed, (i + 1) as nat));
            assert(s * s < 0x1_0000_0000_0000_0000) by (nonlinear_arith)
                requires s < 0x1_0000_0000;
        }
        s = s * s % SEED_MOD;
        i += 1;
    }
    proof {
        assert(seeds_wf(entries@));
    }
    SeedTable { entries }
}

} // verus!
