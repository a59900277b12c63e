//! Self-contained board snapshots.
//!
//! A snapshot carries its own spawn seed next to the packed word, so
//! it can be handed across a process boundary and replayed without
//! the global spawn table.  Its wire form is 16 bytes: the board word
//! little-endian, then the seed little-endian.  `moves` returns the
//! four candidates with their spawns already applied where the move
//! is legal, all driven by the same seed, so every candidate samples
//! the same opponent reply.

use vstd::prelude::*;

use crate::codec::nib;
use crate::engine::{
    down_word, empties, free_rl_spec, free_ud_spec, kth_empty, kth_empty_from, left_word,
    lemma_empties_blank, lemma_free_words, lemma_move_legal, lemma_set_cell_props, right_word,
    scan_cell, scan_zeros_upto, set_cell, up_word, Data,
};
use crate::seeds::{next_seed, seed_value, SEED_MOD};
use crate::table::Tables;

verus! {

/// A board snapshot: the packed word and the seed that drives its
/// own spawn sequence.
#[derive(Clone, Copy, Debug, PartialEq, Eq, Structural)]
pub struct Board {
    pub seed: u64,
    pub data: u64,
}

/// The four candidate moves of a snapshot, each with its spawn
/// already applied when the move is legal.
#[derive(Clone, Copy, Debug)]
pub struct Moves {
    pub up: Board,
    pub down: Board,
    pub left: Board,
    pub right: Board,
}

/// The byte at position `i` of the little-endian form of a word.
pub open spec fn byte_of(x: u64, i: int) -> u8 {
    ((x >> (8 * i)) & 0xff) as u8
}

/// A word read back from 8 little-endian bytes at offset `off`.
pub open spec fn u64_from_bytes(s: Seq<u8>, off: int) -> u64 {
    (s[off] as u64) | ((s[off + 1] as u64) << 8) | ((s[off + 2] as u64) << 16) | ((s[off + 3]
        as u64) << 24) | ((s[off + 4] as u64) << 32) | ((s[off + 5] as u64) << 40) | ((s[off + 6]
        as u64) << 48) | ((s[off + 7] as u64) << 56)
}

/// Reassembling the 8 little-endian bytes of a word gives the word
/// back.
proof fn lemma_u64_bytes_roundtrip(x: u64)
    by (bit_vector)
    ensures
        ((((x >> 0) & 0xff) as u8) as u64) | (((((x >> 8) & 0xff) as u8) as u64) << 8) | (((((x
            >> 16) & 0xff) as u8) as u64) << 16) | (((((x >> 24) & 0xff) as u8) as u64) << 24) | ((
        (((x >> 32) & 0xff) as u8) as u64) << 32) | (((((x >> 40) & 0xff) as u8) as u64) << 40) | ((
        (((x >> 48) & 0xff) as u8) as u64) << 48) | (((((x >> 56) & 0xff) as u8) as u64) << 56)
            == x,
{
}

/// The wire form decodes to the snapshot it came from: 8 bytes of
/// board word, then 8 bytes of seed, both little-endian.
pub proof fn lemma_wire_roundtrip(b: Board, v: Seq<u8>)
    requires
        v.len() >= 16,
        forall|i: int| 0 <= i < 8 ==> v[i] == #[trigger] byte_of(b.data, i),
        forall|i: int| 0 <= i < 8 ==> v[8 + i] == #[trigger] byte_of(b.seed, i),
    ensures
        u64_from_bytes(v, 0) == b.data,
        u64_from_bytes(v, 8) == b.seed,
{
    lemma_u64_bytes_roundtrip(b.data);
    lemma_u64_bytes_roundtrip(b.seed);
    assert(v[0] == byte_of(b.data, 0) && v[1] == byte_of(b.data, 1) && v[2] == byte_of(b.data, 2)
        && v[3] == byte_of(b.data, 3) && v[4] == byte_of(b.data, 4) && v[5] == byte_of(b.data, 5)
        && v[6] == byte_of(b.data, 6) && v[7] == byte_of(b.data, 7));
    assert(v[8] == byte_of(b.seed, 0) && v[9] == byte_of(b.seed, 1) && v[10] == byte_of(b.seed, 2)
        && v[11] == byte_of(b.seed, 3) && v[12] == byte_of(b.seed, 4) && v[13] == byte_of(
        b.seed,
        5,
    ) && v[14] == byte_of(b.seed, 6) && v[15] == byte_of(b.seed, 7));
}

impl Board {
    /// A snapshot is safe to advance while its seed can be squared
    /// without overflow; every advanced seed is a residue far below
    /// that bound.
    pub open spec fn wf(self) -> bool {
        self.seed < 0x1_0000_0000
    }

    /// The spawn a snapshot performs: the tile its seed dictates,
    /// placed on the seed-chosen empty cell, then the seed advanced
    /// one recurrence step.
    pub open spec fn spawn_spec(self, free: int) -> Board {
        Board {
            seed: next_seed(self.seed),
            data: set_cell(
                self.data,
                kth_empty(self.data, (self.seed as int) % free),
                seed_value(self.seed) as u64,
            ),
        }
    }

    /// One candidate of `moves`: the moved word, spawned on when the
    /// move is legal.
    pub open spec fn move_dir(self, w: u64, free: int) -> Board {
        if w != self.data {
            (Board { seed: self.seed, data: w }).spawn_spec(free)
        } else {
            Board { seed: self.seed, data: w }
        }
    }

    /// The canonical start: the empty board and the two opening
    /// spawns, on 16 and then 15 empty cells.
    pub fn new(seed: u64) -> (b: Board)
        requires
            seed < 0x1_0000_0000,
        ensures
            b == (Board { seed, data: 0u64 }).spawn_spec(16).spawn_spec(15),
            b.wf(),
            empties(b.data) == 14,
    {
        proof {
            lemma_empties_blank();
        }
        let mut board = Board { seed, data: 0 };
        board.spawn(16);
        board.spawn(15);
        board
    }

    /// Advances the seed one recurrence step.
    fn update_seed(&mut self)
        requires
            old(self).wf(),
        ensures
            final(self).seed == next_seed(old(self).seed),
            final(self).data == old(self).data,
            final(self).wf(),
    {
        proof {
            assert(self.seed * self.seed < 0x1_0000_0000_0000_0000) by (nonlinear_arith)
                requires
                    self.seed < 0x1_0000_0000,
            ;
        }
        self.seed = self.seed * self.seed % SEED_MOD;
    }

    /// A snapshot with the same seed and another word.
    fn next(&self, data: u64) -> (b: Board)
        ensures
            b.seed == self.seed,
            b.data == data,
    {
        Board { seed: self.seed, data }
    }

    /// Places the tile the current seed dictates on the seed-chosen
    /// empty cell (canonical scan order) and advances the seed.
    /// `free` must be the exact number of empty cells, at least one.
    fn spawn(&mut self, free: usize)
        requires
            old(self).wf(),
            free == empties(old(self).data),
            free > 0,
        ensures
            *final(self) == old(self).spawn_spec(free as int),
            final(self).wf(),
            empties(final(self).data) == free - 1,
    {
        let ghost d = old(self).data;
        let index = (self.seed % (free as u64)) as usize;
        let ghost k0: int = (old(self).seed as int) % (free as int);
        proof {
            crate::engine::lemma_scan_total(d);
            crate::engine::lemma_kth_empty_props(d, 0, k0);
        }
        let mut pos: usize = 0;
        let mut j: usize = 0;
        while j < 16
            invariant
                j <= 16,
                pos <= index,
                index == k0,
                k0 == (old(self).seed as int) % (free as int),
                0 <= k0 < free,
                free == empties(d),
                *self == *old(self),
                self.data == d,
                old(self).wf(),
                pos == scan_zeros_upto(d, j as int),
                kth_empty_from(d, j as int, k0 - pos) == kth_empty(d, k0),
            decreases 16 - j,
        {
            let p = (j % 4) * 4 + j / 4;
            let shift = p * 4;
            if (self.data >> shift) & 0xf == 0 {
                if pos == index {
                    let value: u64 = if self.seed & 0x10 == 0 {
                        1
                    } else {
                        2
                    };
                    proof {
                        assert(p == scan_cell(j as int));
                        assert(kth_empty(d, k0) == p);
                        assert(value == seed_value(old(self).seed) as u64);
                        lemma_set_cell_props(d, p as int, value);
                    }
                    self.data = self.data | (value << shift);
                    self.update_seed();
                    return ;
                }
                pos += 1;
            }
            j += 1;
        }
        proof {
            crate::engine::lemma_scan_total(d);
            assert(false);
        }
    }

    /// Computes the four candidate moves and applies the spawn to
    /// each legal one; all four candidates draw on the same seed.
    pub fn moves(&self, t: &Tables) -> (m: Moves)
        requires
            t.wf(),
            self.wf(),
        ensures
            m.up == self.move_dir(up_word(self.data), free_ud_spec(self.data)),
            m.down == self.move_dir(down_word(self.data), free_ud_spec(self.data)),
            m.left == self.move_dir(left_word(self.data), free_rl_spec(self.data)),
            m.right == self.move_dir(right_word(self.data), free_rl_spec(self.data)),
            m.up.wf() && m.down.wf() && m.left.wf() && m.right.wf(),
    {
        let eb = crate::engine::Board { turn: 0, data: Data(self.data) };
        let em = eb.moves(t);
        proof {
            lemma_free_words(self.data);
            lemma_move_legal(self.data);
        }
        let mut up = self.next(em.up.0);
        let mut down = self.next(em.down.0);
        let mut left = self.next(em.left.0);
        let mut right = self.next(em.right.0);
        if self.data != up.data {
            up.spawn(em.free_ud);
        }
        if self.data != down.data {
            down.spawn(em.free_ud);
        }
        if self.data != left.data {
            left.spawn(em.free_rl);
        }
        if self.data != right.data {
            right.spawn(em.free_rl);
        }
        Moves { up, down, left, right }
    }

    /// Encodes the snapshot into its 16-byte wire form.
    pub fn dump(&self) -> (v: Vec<u8>)
        ensures
            v@.len() == 16,
            forall|i: int| 0 <= i < 8 ==> v@[i] == #[trigger] byte_of(self.data, i),
            forall|i: int| 0 <= i < 8 ==> v@[8 + i] == #[trigger] byte_of(self.seed, i),
    {
        let d = self.data;
        let s = self.seed;
        let mut v: Vec<u8> = Vec::new();
        v.push(((d >> 0) & 0xff) as u8);
        v.push(((d >> 8) & 0xff) as u8);
        v.push(((d >> 16) & 0xff) as u8);
        v.push(((d >> 24) & 0xff) as u8);
        v.push(((d >> 32) & 0xff) as u8);
        v.push(((d >> 40) & 0xff) as u8);
        v.push(((d >> 48) & 0xff) as u8);
        v.push(((d >> 56) & 0xff) as u8);
        v.push(((s >> 0) & 0xff) as u8);
        v.push(((s >> 8) & 0xff) as u8);
        v.push(((s >> 16) & 0xff) as u8);
        v.push(((s >> 24) & 0xff) as u8);
        v.push(((s >> 32) & 0xff) as u8);
        v.push(((s >> 40) & 0xff) as u8);
        v.push(((s >> 48) & 0xff) as u8);
        v.push(((s >> 56) & 0xff) as u8);
        v
    }

    /// Decodes a snapshot from its 16-byte wire form.
    pub fn load(data: &Vec<u8>) -> (b: Board)
        requires
            data@.len() >= 16,
        ensures
            b.data == u64_from_bytes(data@, 0),
            b.seed == u64_from_bytes(data@, 8),
    {
        let d = (data[0] as u64) | ((data[1] as u64) << 8) | ((data[2] as u64) << 16) | ((data[3]
            as u64) << 24) | ((data[4] as u64) << 32) | ((data[5] as u64) << 40) | ((data[6]
            as u64) << 48) | ((data[7] as u64) << 56);
        let s = (data[8] as u64) | ((data[9] as u64) << 8) | ((data[10] as u64) << 16) | ((data[11]
            as u64) << 24) | ((data[12] as u64) << 32) | ((data[13] as u64) << 40) | ((data[14]
            as u64) << 48) | ((data[15] as u64) << 56);
        Board { seed: s, data: d }
    }

    /// Builds a snapshot from 16 cell exponents (cell 0 first) and a
    /// seed.
    pub fn from_vec(data: &Vec<u8>, seed: u64) -> (b: Board)
        requires
            data@.len() >= 16,
            forall|i: int| 0 <= i < 16 ==> #[trigger] data@[i] < 16,
        ensures
            b.seed == seed,
            forall|i: int| 0 <= i < 16 ==> nib(b.data, i) == #[trigger] data@[i],
    {
        let mut board: u64 = 0;
        let mut j: usize = 0;
        proof {
            crate::codec::lemma_nib_bound_all(0u64);
            assert forall|i: int| 0 <= i < 16 implies #[trigger] nib(0u64, i) == 0 by {
                crate::engine::lemma_nib_blank(i as u64);
            }
        }
        while j < 16
            invariant
                j <= 16,
                data@.len() >= 16,
                forall|i: int| 0 <= i < 16 ==> #[trigger] data@[i] < 16,
                forall|i: int| 0 <= i < j ==> nib(board, i) == #[trigger] data@[i],
                forall|i: int| j <= i < 16 ==> #[trigger] nib(board, i) == 0,
            decreases 16 - j,
        {
            let v = data[j];
            if v != 0 {
                proof {
                    lemma_set_cell_props(board, j as int, v as u64);
                }
                board = board | ((v as u64) << (j * 4));
            }
            j += 1;
        }
        Board { seed, data: board }
    }

    /// Reads the 16 cell exponents out of the snapshot, cell 0 first.
    pub fn to_vec(&self) -> (v: Vec<u8>)
        ensures
            v@.len() == 16,
            forall|i: int| 0 <= i < 16 ==> #[trigger] v@[i] as u64 == nib(self.data, i),
            forall|i: int| 0 <= i < 16 ==> #[trigger] v@[i] < 16,
    {
        let mut res: Vec<u8> = Vec::new();
        let mut j: usize = 0;
        while j < 16
            invariant
                j <= 16,
                res@.len() == j,
                forall|i: int| 0 <= i < j ==> #[trigger] res@[i] as u64 == nib(self.data, i),
                forall|i: int| 0 <= i < j ==> #[trigger] res@[i] < 16,
            decreases 16 - j,
        {
            proof {
                crate::codec::lemma_nib_bound(self.data, j as u64);
            }
            res.push(((self.data >> (j * 4)) & 15) as u8);
            j += 1;
        }
        res
    }
}

} // verus!
