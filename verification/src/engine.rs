//! The bitboard engine: candidate moves and tile spawns on a packed
//! 4x4 board.
//!
//! A `Board` pairs the packed 64-bit word with a `turn` counter, the
//! ordinal index into the spawn sequence.  `moves` compacts all four
//! rows and all four columns through the tables, yielding the four
//! candidate next words; a candidate equal to the current word means
//! the move is illegal.  `spawn` places the tile the spawn sequence
//! dictates on the chosen candidate, walking empty cells column by
//! column, top to bottom within a column.

use vstd::prelude::*;

use crate::codec::{board_col, board_row, line16, nib, pack16, spread64};
use crate::seeds::{seed_seq, Seed, SeedTable, set_seed, SEED_COUNT};
use crate::table::{
    cap_inc, cell_value, col_ok, compact_left, compact_right, count_zeros, line_total,
    lemma_compact_counts, lemma_compact_identity, lemma_compact_props, lemma_compact_total,
    lemma_compact_value_bound, lemma_zeros_upto_bounds, row_ok, ColData, RowData, Tables,
};

verus! {

/// A packed board word: 16 cells of 4 bits, each a tile exponent.
#[derive(Clone, Copy, Debug, PartialEq, Eq, Structural)]
pub struct Data(pub u64);

/// A board state: the packed word and the ply counter that indexes
/// the spawn sequence.
#[derive(Clone, Copy, Debug)]
pub struct Board {
    pub turn: usize,
    pub data: Data,
}

/// The four candidate next words, and the number of empty cells the
/// row moves (left/right) respectively the column moves (up/down)
/// leave behind.
#[derive(Clone, Copy, Debug)]
pub struct Moves {
    pub right: Data,
    pub left: Data,
    pub free_rl: usize,
    pub up: Data,
    pub down: Data,
    pub free_ud: usize,
}

/// Four 16-bit row values assembled into a board word, row 0 lowest.
pub open spec fn w_rows(a: u64, b: u64, c: u64, e: u64) -> u64 {
    a | (b << 16) | (c << 32) | (e << 48)
}

/// Four spread column values assembled into a board word, column 0
/// at the lowest nibble.
pub open spec fn w_cols(a: u64, b: u64, c: u64, e: u64) -> u64 {
    a | (b << 4) | (c << 8) | (e << 12)
}

/// Row `r` compacted toward the left, as a packed 16-bit value.
pub open spec fn row_left16(d: u64, r: int) -> u64 {
    pack16(compact_left(board_row(d, r)))
}

/// Row `r` compacted toward the right, as a packed 16-bit value.
pub open spec fn row_right16(d: u64, r: int) -> u64 {
    pack16(compact_right(board_row(d, r)))
}

/// Column `c` compacted upward, in spread form.
pub open spec fn col_up64(d: u64, c: int) -> u64 {
    spread64(compact_left(board_col(d, c)))
}

/// Column `c` compacted downward, in spread form.
pub open spec fn col_down64(d: u64, c: int) -> u64 {
    spread64(compact_right(board_col(d, c)))
}

/// The whole board moved left.
pub open spec fn left_word(d: u64) -> u64 {
    w_rows(row_left16(d, 0), row_left16(d, 1), row_left16(d, 2), row_left16(d, 3))
}

/// The whole board moved right.
pub open spec fn right_word(d: u64) -> u64 {
    w_rows(row_right16(d, 0), row_right16(d, 1), row_right16(d, 2), row_right16(d, 3))
}

/// The whole board moved up.
pub open spec fn up_word(d: u64) -> u64 {
    w_cols(col_up64(d, 0), col_up64(d, 1), col_up64(d, 2), col_up64(d, 3))
}

/// The whole board moved down.
pub open spec fn down_word(d: u64) -> u64 {
    w_cols(col_down64(d, 0), col_down64(d, 1), col_down64(d, 2), col_down64(d, 3))
}

/// Empty cells left by a horizontal move, summed over the rows.
pub open spec fn free_rl_spec(d: u64) -> int {
    count_zeros(compact_right(board_row(d, 0))) + count_zeros(compact_right(board_row(d, 1)))
        + count_zeros(compact_right(board_row(d, 2))) + count_zeros(compact_right(board_row(d, 3)))
}

/// Empty cells left by a vertical move, summed over the columns.
pub open spec fn free_ud_spec(d: u64) -> int {
    count_zeros(compact_left(board_col(d, 0))) + count_zeros(compact_left(board_col(d, 1)))
        + count_zeros(compact_left(board_col(d, 2))) + count_zeros(compact_left(board_col(d, 3)))
}

/// Extracting 16 contiguous bits yields the 4 cells of row `i`.
proof fn lemma_row_extract(d: u64, i: u64)
    by (bit_vector)
    requires
        i < 4,
    ensures
        ((d >> (16 * i)) & 0xffff) < 65536,
        nib((d >> (16 * i)) & 0xffff, 0) == nib(d, 4 * (i as int)),
        nib((d >> (16 * i)) & 0xffff, 1) == nib(d, 4 * (i as int) + 1),
        nib((d >> (16 * i)) & 0xffff, 2) == nib(d, 4 * (i as int) + 2),
        nib((d >> (16 * i)) & 0xffff, 3) == nib(d, 4 * (i as int) + 3),
{
}

/// Gathering the four stride-4 cells of column `i` into a packed
/// 16-bit line.
proof fn lemma_col_gather(d: u64, i: u64)
    by (bit_vector)
    requires
        i < 4,
    ensures
        (((d >> (4 * i)) & 0xf) | (((d >> (4 * i + 16)) & 0xf) << 4) | (((d >> (4 * i + 32))
            & 0xf) << 8) | (((d >> (4 * i + 48)) & 0xf) << 12)) < 65536,
        nib(
            ((d >> (4 * i)) & 0xf) | (((d >> (4 * i + 16)) & 0xf) << 4) | (((d >> (4 * i + 32))
                & 0xf) << 8) | (((d >> (4 * i + 48)) & 0xf) << 12),
            0,
        ) == nib(d, i as int),
        nib(
            ((d >> (4 * i)) & 0xf) | (((d >> (4 * i + 16)) & 0xf) << 4) | (((d >> (4 * i + 32))
                & 0xf) << 8) | (((d >> (4 * i + 48)) & 0xf) << 12),
            1,
        ) == nib(d, 4 + i as int),
        nib(
            ((d >> (4 * i)) & 0xf) | (((d >> (4 * i + 16)) & 0xf) << 4) | (((d >> (4 * i + 32))
                & 0xf) << 8) | (((d >> (4 * i + 48)) & 0xf) << 12),
            2,
        ) == nib(d, 8 + i as int),
        nib(
            ((d >> (4 * i)) & 0xf) | (((d >> (4 * i + 16)) & 0xf) << 4) | (((d >> (4 * i + 32))
                & 0xf) << 8) | (((d >> (4 * i + 48)) & 0xf) << 12),
            3,
        ) == nib(d, 12 + i as int),
{
}

/// Looks up the row table entry for row `i` of a board word.
fn row_entry(t: &Tables, d: u64, i: usize) -> (e: RowData)
    requires
        t.wf(),
        i < 4,
    ensures
        e.left as u64 == row_left16(d, i as int),
        e.right as u64 == row_right16(d, i as int),
        e.free == count_zeros(compact_right(board_row(d, i as int))),
        e.free <= 4,
{
    let rv = ((d >> (i * 16)) & 0xffff) as usize;
    proof {
        lemma_row_extract(d, i as u64);
        crate::codec::lemma_nib_bound_all(d);
        assert(line16(rv as u16) =~= board_row(d, i as int));
        lemma_zeros_upto_bounds(compact_right(board_row(d, i as int)), 4);
        lemma_compact_props(board_row(d, i as int));
    }
    t.rows[rv]
}

/// Looks up the column table entry for column `i` of a board word.
fn col_entry(t: &Tables, d: u64, i: usize) -> (e: ColData)
    requires
        t.wf(),
        i < 4,
    ensures
        e.up == col_up64(d, i as int),
        e.down == col_down64(d, i as int),
        e.free == count_zeros(compact_left(board_col(d, i as int))),
        e.free <= 4,
{
    let cv = (((d >> (4 * i)) & 0xf) | (((d >> (4 * i + 16)) & 0xf) << 4) | (((d >> (4 * i + 32))
        & 0xf) << 8) | (((d >> (4 * i + 48)) & 0xf) << 12)) as usize;
    proof {
        lemma_col_gather(d, i as u64);
        crate::codec::lemma_nib_bound_all(d);
        assert(line16(cv as u16) =~= board_col(d, i as int));
        lemma_zeros_upto_bounds(compact_left(board_col(d, i as int)), 4);
        lemma_compact_props(board_col(d, i as int));
    }
    t.cols[cv]
}

impl Board {
    /// Computes all four candidate moves of the current word: every
    /// row compacted both ways, every column compacted both ways, and
    /// the empty-cell counts the horizontal and vertical moves leave.
    pub fn moves(&self, t: &Tables) -> (m: Moves)
        requires
            t.wf(),
        ensures
            m.left.0 == left_word(self.data.0),
            m.right.0 == right_word(self.data.0),
            m.up.0 == up_word(self.data.0),
            m.down.0 == down_word(self.data.0),
            m.free_rl == free_rl_spec(self.data.0),
            m.free_ud == free_ud_spec(self.data.0),
            m.free_rl <= 16,
            m.free_ud <= 16,
    {
        let d = self.data.0;
        let e0 = row_entry(t, d, 0);
        let e1 = row_entry(t, d, 1);
        let e2 = row_entry(t, d, 2);
        let e3 = row_entry(t, d, 3);
        let c0 = col_entry(t, d, 0);
        let c1 = col_entry(t, d, 1);
        let c2 = col_entry(t, d, 2);
        let c3 = col_entry(t, d, 3);
        let left = (e0.left as u64) | ((e1.left as u64) << 16) | ((e2.left as u64) << 32)
            | ((e3.left as u64) << 48);
        let right = (e0.right as u64) | ((e1.right as u64) << 16) | ((e2.right as u64) << 32)
            | ((e3.right as u64) << 48);
        let up = c0.up | (c1.up << 4) | (c2.up << 8) | (c3.up << 12);
        let down = c0.down | (c1.down << 4) | (c2.down << 8) | (c3.down << 12);
        let free_rl = e0.free + e1.free + e2.free + e3.free;
        let free_ud = c0.free + c1.free + c2.free + c3.free;
        Moves { right: Data(right), left: Data(left), free_rl, up: Data(up), down: Data(down), free_ud }
    }
}

/// Reading the rows of a word assembled from four 16-bit row values.
proof fn lemma_w_rows_nibs(a: u64, b: u64, c: u64, e: u64)
    by (bit_vector)
    requires
        a < 0x10000,
        b < 0x10000,
        c < 0x10000,
        e < 0x10000,
    ensures
        nib(w_rows(a, b, c, e), 0) == nib(a, 0),
        nib(w_rows(a, b, c, e), 1) == nib(a, 1),
        nib(w_rows(a, b, c, e), 2) == nib(a, 2),
        nib(w_rows(a, b, c, e), 3) == nib(a, 3),
        nib(w_rows(a, b, c, e), 4) == nib(b, 0),
        nib(w_rows(a, b, c, e), 5) == nib(b, 1),
        nib(w_rows(a, b, c, e), 6) == nib(b, 2),
        nib(w_rows(a, b, c, e), 7) == nib(b, 3),
        nib(w_rows(a, b, c, e), 8) == nib(c, 0),
        nib(w_rows(a, b, c, e), 9) == nib(c, 1),
        nib(w_rows(a, b, c, e), 10) == nib(c, 2),
        nib(w_rows(a, b, c, e), 11) == nib(c, 3),
        nib(w_rows(a, b, c, e), 12) == nib(e, 0),
        nib(w_rows(a, b, c, e), 13) == nib(e, 1),
        nib(w_rows(a, b, c, e), 14) == nib(e, 2),
        nib(w_rows(a, b, c, e), 15) == nib(e, 3),
{
}

/// Reading the columns of a word assembled from four spread column
/// values.
proof fn lemma_w_cols_nibs(a: u64, b: u64, c: u64, e: u64)
    by (bit_vector)
    requires
        a & 0x000f_000f_000f_000f == a,
        b & 0x000f_000f_000f_000f == b,
        c & 0x000f_000f_000f_000f == c,
        e & 0x000f_000f_000f_000f == e,
    ensures
        nib(w_cols(a, b, c, e), 0) == nib(a, 0),
        nib(w_cols(a, b, c, e), 1) == nib(b, 0),
        nib(w_cols(a, b, c, e), 2) == nib(c, 0),
        nib(w_cols(a, b, c, e), 3) == nib(e, 0),
        nib(w_cols(a, b, c, e), 4) == nib(a, 4),
        nib(w_cols(a, b, c, e), 5) == nib(b, 4),
        nib(w_cols(a, b, c, e), 6) == nib(c, 4),
        nib(w_cols(a, b, c, e), 7) == nib(e, 4),
        nib(w_cols(a, b, c, e), 8) == nib(a, 8),
        nib(w_cols(a, b, c, e), 9) == nib(b, 8),
        nib(w_cols(a, b, c, e), 10) == nib(c, 8),
        nib(w_cols(a, b, c, e), 11) == nib(e, 8),
        nib(w_cols(a, b, c, e), 12) == nib(a, 12),
        nib(w_cols(a, b, c, e), 13) == nib(b, 12),
        nib(w_cols(a, b, c, e), 14) == nib(c, 12),
        nib(w_cols(a, b, c, e), 15) == nib(e, 12),
{
}

/// Two words with equal cells are equal.
proof fn lemma_word_from_nibs(a: u64, b: u64)
    by (bit_vector)
    requires
        nib(a, 0) == nib(b, 0),
        nib(a, 1) == nib(b, 1),
        nib(a, 2) == nib(b, 2),
        nib(a, 3) == nib(b, 3),
        nib(a, 4) == nib(b, 4),
        nib(a, 5) == nib(b, 5),
        nib(a, 6) == nib(b, 6),
        nib(a, 7) == nib(b, 7),
        nib(a, 8) == nib(b, 8),
        nib(a, 9) == nib(b, 9),
        nib(a, 10) == nib(b, 10),
        nib(a, 11) == nib(b, 11),
        nib(a, 12) == nib(b, 12),
        nib(a, 13) == nib(b, 13),
        nib(a, 14) == nib(b, 14),
        nib(a, 15) == nib(b, 15),
    ensures
        a == b,
{
}

/// The four move words read back line by line: every row of the left
/// and right word is the compacted row, every column of the up and
/// down word is the compacted column.
pub proof fn lemma_move_words_readback(d: u64)
    ensures
        forall|r: int|
            0 <= r < 4 ==> #[trigger] board_row(left_word(d), r) == compact_left(
                board_row(d, r),
            ),
        forall|r: int|
            0 <= r < 4 ==> #[trigger] board_row(right_word(d), r) == compact_right(
                board_row(d, r),
            ),
        forall|c: int|
            0 <= c < 4 ==> #[trigger] board_col(up_word(d), c) == compact_left(board_col(d, c)),
        forall|c: int|
            0 <= c < 4 ==> #[trigger] board_col(down_word(d), c) == compact_right(
                board_col(d, c),
            ),
{
    crate::codec::lemma_nib_bound_all(d);
    lemma_compact_props(board_row(d, 0));
    lemma_compact_props(board_row(d, 1));
    lemma_compact_props(board_row(d, 2));
    lemma_compact_props(board_row(d, 3));
    lemma_compact_props(board_col(d, 0));
    lemma_compact_props(board_col(d, 1));
    lemma_compact_props(board_col(d, 2));
    lemma_compact_props(board_col(d, 3));
    let l0 = compact_left(board_row(d, 0));
    let l1 = compact_left(board_row(d, 1));
    let l2 = compact_left(board_row(d, 2));
    let l3 = compact_left(board_row(d, 3));
    crate::codec::lemma_pack16_vals(l0[0], l0[1], l0[2], l0[3]);
    crate::codec::lemma_pack16_vals(l1[0], l1[1], l1[2], l1[3]);
    crate::codec::lemma_pack16_vals(l2[0], l2[1], l2[2], l2[3]);
    crate::codec::lemma_pack16_vals(l3[0], l3[1], l3[2], l3[3]);
    lemma_w_rows_nibs(row_left16(d, 0), row_left16(d, 1), row_left16(d, 2), row_left16(d, 3));
    assert(board_row(left_word(d), 0) =~= compact_left(board_row(d, 0)));
    assert(board_row(left_word(d), 1) =~= compact_left(board_row(d, 1)));
    assert(board_row(left_word(d), 2) =~= compact_left(board_row(d, 2)));
    assert(board_row(left_word(d), 3) =~= compact_left(board_row(d, 3)));
    let r0 = compact_right(board_row(d, 0));
    let r1 = compact_right(board_row(d, 1));
    let r2 = compact_right(board_row(d, 2));
    let r3 = compact_right(board_row(d, 3));
    crate::codec::lemma_pack16_vals(r0[0], r0[1], r0[2], r0[3]);
    crate::codec::lemma_pack16_vals(r1[0], r1[1], r1[2], r1[3]);
    crate::codec::lemma_pack16_vals(r2[0], r2[1], r2[2], r2[3]);
    crate::codec::lemma_pack16_vals(r3[0], r3[1], r3[2], r3[3]);
    lemma_w_rows_nibs(row_right16(d, 0), row_right16(d, 1), row_right16(d, 2), row_right16(d, 3));
    assert(board_row(right_word(d), 0) =~= compact_right(board_row(d, 0)));
    assert(board_row(right_word(d), 1) =~= compact_right(board_row(d, 1)));
    assert(board_row(right_word(d), 2) =~= compact_right(board_row(d, 2)));
    assert(board_row(right_word(d), 3) =~= compact_right(board_row(d, 3)));
    let u0 = compact_left(board_col(d, 0));
    let u1 = compact_left(board_col(d, 1));
    let u2 = compact_left(board_col(d, 2));
    let u3 = compact_left(board_col(d, 3));
    crate::codec::lemma_spread64_vals(u0[0], u0[1], u0[2], u0[3]);
    crate::codec::lemma_spread64_vals(u1[0], u1[1], u1[2], u1[3]);
    crate::codec::lemma_spread64_vals(u2[0], u2[1], u2[2], u2[3]);
    crate::codec::lemma_spread64_vals(u3[0], u3[1], u3[2], u3[3]);
    lemma_w_cols_nibs(col_up64(d, 0), col_up64(d, 1), col_up64(d, 2), col_up64(d, 3));
    assert(board_col(up_word(d), 0) =~= compact_left(board_col(d, 0)));
    assert(board_col(up_word(d), 1) =~= compact_left(board_col(d, 1)));
    assert(board_col(up_word(d), 2) =~= compact_left(board_col(d, 2)));
    assert(board_col(up_word(d), 3) =~= compact_left(board_col(d, 3)));
    let v0 = compact_right(board_col(d, 0));
    let v1 = compact_right(board_col(d, 1));
    let v2 = compact_right(board_col(d, 2));
    let v3 = compact_right(board_col(d, 3));
    crate::codec::lemma_spread64_vals(v0[0], v0[1], v0[2], v0[3]);
    crate::codec::lemma_spread64_vals(v1[0], v1[1], v1[2], v1[3]);
    crate::codec::lemma_spread64_vals(v2[0], v2[1], v2[2], v2[3]);
    crate::codec::lemma_spread64_vals(v3[0], v3[1], v3[2], v3[3]);
    lemma_w_cols_nibs(col_down64(d, 0), col_down64(d, 1), col_down64(d, 2), col_down64(d, 3));
    assert(board_col(down_word(d), 0) =~= compact_right(board_col(d, 0)));
    assert(board_col(down_word(d), 1) =~= compact_right(board_col(d, 1)));
    assert(board_col(down_word(d), 2) =~= compact_right(board_col(d, 2)));
    assert(board_col(down_word(d), 3) =~= compact_right(board_col(d, 3)));
}

/// The empty cells of a word are its empty row cells.
#[verifier::rlimit(100)]
proof fn lemma_empties_rows(d: u64)
    ensures
        empties(d) == count_zeros(board_row(d, 0)) + count_zeros(board_row(d, 1)) + count_zeros(
            board_row(d, 2),
        ) + count_zeros(board_row(d, 3)),
{
    reveal_with_fuel(empties_upto, 17);
    reveal_with_fuel(crate::table::zeros_upto, 6);
}

/// The empty cells of a word are its empty column cells.
#[verifier::rlimit(100)]
proof fn lemma_empties_cols(d: u64)
    ensures
        empties(d) == count_zeros(board_col(d, 0)) + count_zeros(board_col(d, 1)) + count_zeros(
            board_col(d, 2),
        ) + count_zeros(board_col(d, 3)),
{
    reveal_with_fuel(empties_upto, 17);
    reveal_with_fuel(crate::table::zeros_upto, 6);
    let s0 = board_col(d, 0);
    let s1 = board_col(d, 1);
    let s2 = board_col(d, 2);
    let s3 = board_col(d, 3);
    assert(s0[0] == nib(d, 0) && s0[1] == nib(d, 4) && s0[2] == nib(d, 8) && s0[3] == nib(d, 12));
    assert(s1[0] == nib(d, 1) && s1[1] == nib(d, 5) && s1[2] == nib(d, 9) && s1[3] == nib(d, 13));
    assert(s2[0] == nib(d, 2) && s2[1] == nib(d, 6) && s2[2] == nib(d, 10) && s2[3] == nib(d, 14));
    assert(s3[0] == nib(d, 3) && s3[1] == nib(d, 7) && s3[2] == nib(d, 11) && s3[3] == nib(d, 15));
}

/// The free-cell counts of `moves` are exactly the empty cells of
/// each candidate word: the two horizontal candidates leave equally
/// many, and so do the two vertical ones.
pub proof fn lemma_free_words(d: u64)
    ensures
        free_rl_spec(d) == empties(left_word(d)),
        free_rl_spec(d) == empties(right_word(d)),
        free_ud_spec(d) == empties(up_word(d)),
        free_ud_spec(d) == empties(down_word(d)),
        0 <= free_rl_spec(d) <= 16,
        0 <= free_ud_spec(d) <= 16,
{
    crate::codec::lemma_nib_bound_all(d);
    lemma_move_words_readback(d);
    lemma_empties_rows(left_word(d));
    lemma_empties_rows(right_word(d));
    lemma_empties_cols(up_word(d));
    lemma_empties_cols(down_word(d));
    lemma_compact_counts(board_row(d, 0));
    lemma_compact_counts(board_row(d, 1));
    lemma_compact_counts(board_row(d, 2));
    lemma_compact_counts(board_row(d, 3));
    lemma_compact_counts(board_col(d, 0));
    lemma_compact_counts(board_col(d, 1));
    lemma_compact_counts(board_col(d, 2));
    lemma_compact_counts(board_col(d, 3));
}

/// A legal move always leaves room for the following spawn: a
/// candidate that differs from the current word has at least one
/// empty cell.
pub proof fn lemma_move_legal(d: u64)
    ensures
        left_word(d) != d ==> free_rl_spec(d) > 0,
        right_word(d) != d ==> free_rl_spec(d) > 0,
        up_word(d) != d ==> free_ud_spec(d) > 0,
        down_word(d) != d ==> free_ud_spec(d) > 0,
{
    crate::codec::lemma_nib_bound_all(d);
    lemma_move_words_readback(d);
    lemma_free_words(d);
    lemma_compact_counts(board_row(d, 0));
    lemma_compact_counts(board_row(d, 1));
    lemma_compact_counts(board_row(d, 2));
    lemma_compact_counts(board_row(d, 3));
    lemma_compact_counts(board_col(d, 0));
    lemma_compact_counts(board_col(d, 1));
    lemma_compact_counts(board_col(d, 2));
    lemma_compact_counts(board_col(d, 3));
    if free_rl_spec(d) == 0 {
        lemma_compact_identity(board_row(d, 0));
        lemma_compact_identity(board_row(d, 1));
        lemma_compact_identity(board_row(d, 2));
        lemma_compact_identity(board_row(d, 3));
        assert forall|i: int| 0 <= i < 16 implies #[trigger] nib(left_word(d), i) == nib(d, i) by {
            let r = i / 4;
            let c = i % 4;
            assert(board_row(left_word(d), r)[c] == board_row(d, r)[c]);
        }
        assert forall|i: int| 0 <= i < 16 implies #[trigger] nib(right_word(d), i) == nib(d, i) by {
            let r = i / 4;
            let c = i % 4;
            assert(board_row(right_word(d), r)[c] == board_row(d, r)[c]);
        }
        lemma_word_from_nibs(left_word(d), d);
        lemma_word_from_nibs(right_word(d), d);
    }
    if free_ud_spec(d) == 0 {
        lemma_compact_identity(board_col(d, 0));
        lemma_compact_identity(board_col(d, 1));
        lemma_compact_identity(board_col(d, 2));
        lemma_compact_identity(board_col(d, 3));
        assert forall|i: int| 0 <= i < 16 implies #[trigger] nib(up_word(d), i) == nib(d, i) by {
            let r = i / 4;
            let c = i % 4;
            assert(board_col(up_word(d), c)[r] == board_col(d, c)[r]);
        }
        assert forall|i: int| 0 <= i < 16 implies #[trigger] nib(down_word(d), i) == nib(d, i) by {
            let r = i / 4;
            let c = i % 4;
            assert(board_col(down_word(d), c)[r] == board_col(d, c)[r]);
        }
        lemma_word_from_nibs(up_word(d), d);
        lemma_word_from_nibs(down_word(d), d);
    }
}

/// How many of the first `i` cells of a board word are empty.
pub open spec fn empties_upto(d: u64, i: int) -> int
    decreases i,
{
    if i <= 0 {
        0
    } else {
        empties_upto(d, i - 1) + if nib(d, i - 1) == 0 {
            1int
        } else {
            0int
        }
    }
}

/// How many cells of a board word are empty.
pub open spec fn empties(d: u64) -> int {
    empties_upto(d, 16)
}

/// The cell at scan position `j` of the canonical spawn order:
/// columns left to right, and within a column rows top to bottom.
pub open spec fn scan_cell(j: int) -> int {
    4 * (j % 4) + j / 4
}

/// How many of the first `j` scan positions are empty cells.
pub open spec fn scan_zeros_upto(d: u64, j: int) -> int
    decreases j,
{
    if j <= 0 {
        0
    } else {
        scan_zeros_upto(d, j - 1) + if nib(d, scan_cell(j - 1)) == 0 {
            1int
        } else {
            0int
        }
    }
}

/// The cell index of the `k`-th empty cell at or after scan position
/// `j` (16 when there is none).
pub open spec fn kth_empty_from(d: u64, j: int, k: int) -> int
    decreases 16 - j,
{
    if j < 0 || j >= 16 {
        16
    } else if nib(d, scan_cell(j)) == 0 {
        if k <= 0 {
            scan_cell(j)
        } else {
            kth_empty_from(d, j + 1, k - 1)
        }
    } else {
        kth_empty_from(d, j + 1, k)
    }
}

/// The cell index of the `k`-th empty cell in canonical scan order.
pub open spec fn kth_empty(d: u64, k: int) -> int {
    kth_empty_from(d, 0, k)
}

/// A value written into cell `i` of a board word whose cell `i` is
/// empty.
pub open spec fn set_cell(d: u64, i: int, v: u64) -> u64 {
    d | (v << (4 * i))
}

/// The word after the spawn of ply `turn` on word `d` with `free`
/// empty cells: the entry's seed picks among the empty cells in scan
/// order, the entry's value is the spawned exponent.
pub open spec fn spawn_word(e: Seq<Seed>, turn: int, d: u64, free: int) -> u64 {
    set_cell(d, kth_empty(d, (e[turn].seed as int) % free), e[turn].value as u64)
}

/// The scan order visits every cell once, so it sees every empty
/// cell.
#[verifier::rlimit(100)]
pub proof fn lemma_scan_total(d: u64)
    ensures
        scan_zeros_upto(d, 16) == empties(d),
{
    reveal_with_fuel(scan_zeros_upto, 17);
    reveal_with_fuel(empties_upto, 17);
}

/// The `k`-th empty cell at or after scan position `j` exists when
/// the positions from `j` on hold more than `k` empty cells; it is a
/// board cell and it is empty.
pub proof fn lemma_kth_empty_props(d: u64, j: int, k: int)
    requires
        0 <= j <= 16,
        0 <= k,
        k < scan_zeros_upto(d, 16) - scan_zeros_upto(d, j),
    ensures
        0 <= kth_empty_from(d, j, k) < 16,
        nib(d, kth_empty_from(d, j, k)) == 0,
    decreases 16 - j,
{
    lemma_scan_monotone(d, j, 16);
    if j < 16 {
        if nib(d, scan_cell(j)) == 0 {
            if k > 0 {
                lemma_kth_empty_props(d, j + 1, k - 1);
            }
        } else {
            lemma_kth_empty_props(d, j + 1, k);
        }
    }
}

/// The scan-order empty count grows with the prefix.
proof fn lemma_scan_monotone(d: u64, a: int, b: int)
    requires
        a <= b,
    ensures
        scan_zeros_upto(d, a) <= scan_zeros_upto(d, b),
    decreases b - a,
{
    if a < b {
        lemma_scan_monotone(d, a, b - 1);
    }
}

/// Writing a value into an empty 4-bit field: the field reads back,
/// every other field is kept.
proof fn lemma_set_cell_nibs(d: u64, p: u64, v: u64)
    by (bit_vector)
    requires
        p < 16,
        v < 16,
        nib(d, p as int) == 0,
    ensures
        nib(d | (v << (4 * p)), 0) == (if p == 0 { v } else { nib(d, 0) }),
        nib(d | (v << (4 * p)), 1) == (if p == 1 { v } else { nib(d, 1) }),
        nib(d | (v << (4 * p)), 2) == (if p == 2 { v } else { nib(d, 2) }),
        nib(d | (v << (4 * p)), 3) == (if p == 3 { v } else { nib(d, 3) }),
        nib(d | (v << (4 * p)), 4) == (if p == 4 { v } else { nib(d, 4) }),
        nib(d | (v << (4 * p)), 5) == (if p == 5 { v } else { nib(d, 5) }),
        nib(d | (v << (4 * p)), 6) == (if p == 6 { v } else { nib(d, 6) }),
        nib(d | (v << (4 * p)), 7) == (if p == 7 { v } else { nib(d, 7) }),
        nib(d | (v << (4 * p)), 8) == (if p == 8 { v } else { nib(d, 8) }),
        nib(d | (v << (4 * p)), 9) == (if p == 9 { v } else { nib(d, 9) }),
        nib(d | (v << (4 * p)), 10) == (if p == 10 { v } else { nib(d, 10) }),
        nib(d | (v << (4 * p)), 11) == (if p == 11 { v } else { nib(d, 11) }),
        nib(d | (v << (4 * p)), 12) == (if p == 12 { v } else { nib(d, 12) }),
        nib(d | (v << (4 * p)), 13) == (if p == 13 { v } else { nib(d, 13) }),
        nib(d | (v << (4 * p)), 14) == (if p == 14 { v } else { nib(d, 14) }),
        nib(d | (v << (4 * p)), 15) == (if p == 15 { v } else { nib(d, 15) }),
{
}

/// Filling one empty cell with a tile: that cell reads the tile,
/// every other cell is kept, and one fewer cell is empty.
#[verifier::rlimit(100)]
pub proof fn lemma_set_cell_props(d: u64, p: int, v: u64)
    requires
        0 <= p < 16,
        1 <= v < 16,
        nib(d, p) == 0,
    ensures
        nib(set_cell(d, p, v), p) == v,
        forall|i: int|
            0 <= i < 16 && i != p ==> #[trigger] nib(set_cell(d, p, v), i) == nib(d, i),
        empties(set_cell(d, p, v)) == empties(d) - 1,
{
    lemma_set_cell_nibs(d, p as u64, v);
    reveal_with_fuel(empties_upto, 17);
}

/// The empty board has 16 empty cells.
pub proof fn lemma_empties_blank()
    ensures
        empties(0u64) == 16,
{
    assert forall|i: int| 0 <= i < 16 implies #[trigger] nib(0u64, i) == 0 by {
        lemma_nib_blank(i as u64);
    }
    reveal_with_fuel(empties_upto, 17);
}

/// Every 4-bit field of the zero word is zero.
pub proof fn lemma_nib_blank(i: u64)
    by (bit_vector)
    requires
        i < 16,
    ensures
        nib(0u64, i as int) == 0,
{
}

impl Board {
    /// Applies the spawn of ply `turn` to a chosen candidate word.
    /// `free` must be the exact number of empty cells of that word
    /// and there must be at least one; handing anything else over
    /// would be an upstream move-legality bug, which the precondition
    /// rules out.
    pub fn spawn(&self, seeds: &SeedTable, data: Data, free: usize) -> (b: Board)
        requires
            seeds.wf(),
            self.turn < seeds.entries@.len(),
            free == empties(data.0),
            free > 0,
        ensures
            b.turn == self.turn + 1,
            b.data.0 == spawn_word(seeds.entries@, self.turn as int, data.0, free as int),
            empties(b.data.0) == free - 1,
    {
        let n = seeds.entries.len();
        let entry = seeds.entries[self.turn];
        let index = (entry.seed % (free as u64)) as usize;
        proof {
            assert(self.turn < n);
        }
        let ghost d = data.0;
        let ghost k0: int = (entry.seed as int) % (free as int);
        proof {
            lemma_scan_total(d);
            lemma_kth_empty_props(d, 0, k0);
        }
        let mut pos: usize = 0;
        let mut j: usize = 0;
        while j < 16
            invariant
                j <= 16,
                pos <= index,
                index == k0,
                k0 == (entry.seed as int) % (free as int),
                0 <= k0 < free,
                self.turn < usize::MAX,
                free == empties(d),
                data.0 == d,
                entry == seeds.entries@[self.turn as int],
                seeds.wf(),
                self.turn < seeds.entries@.len(),
                pos == scan_zeros_upto(d, j as int),
                kth_empty_from(d, j as int, k0 - pos) == kth_empty(d, k0),
            decreases 16 - j,
        {
            let p = (j % 4) * 4 + j / 4;
            let shift = p * 4;
            if (data.0 >> shift) & 0xf == 0 {
                if pos == index {
                    let b = Board {
                        turn: self.turn + 1,
                        data: Data(data.0 | ((entry.value as u64) << shift)),
                    };
                    proof {
                        assert(p == scan_cell(j as int));
                        assert(kth_empty(d, k0) == p);
                        assert(b.data.0 == set_cell(d, p as int, entry.value as u64));
                        assert(1 <= entry.value < 16);
                        lemma_set_cell_props(d, p as int, entry.value as u64);
                    }
                    return b;
                }
                pos += 1;
            }
            j += 1;
        }
        proof {
            lemma_scan_total(d);
            assert(false);
        }
        vstd::pervasive::unreached()
    }

    /// The canonical start of a game: the empty board followed by the
    /// two opening spawns, on 16 and then 15 empty cells.
    pub fn new(seeds: &SeedTable) -> (b: Board)
        requires
            seeds.wf(),
            seeds.entries@.len() >= 2,
        ensures
            b.turn == 2,
            b.data.0 == spawn_word(
                seeds.entries@,
                1,
                spawn_word(seeds.entries@, 0, 0, 16),
                15,
            ),
            empties(b.data.0) == 14,
    {
        proof {
            lemma_empties_blank();
        }
        let s0 = Board { turn: 0, data: Data(0) };
        let s1 = s0.spawn(seeds, Data(0), 16);
        s1.spawn(seeds, s1.data, 15)
    }
}

/// The total tile value of the first `i` cells of a word: `2^e` per
/// tile of exponent `e`.
pub open spec fn tile_total_upto(d: u64, i: int) -> int
    decreases i,
{
    if i <= 0 {
        0
    } else {
        tile_total_upto(d, i - 1) + cell_value(nib(d, i - 1))
    }
}

/// The total tile value on a board word.
pub open spec fn tile_total(d: u64) -> int {
    tile_total_upto(d, 16)
}

/// The board total is the sum of its row totals.
#[verifier::rlimit(100)]
proof fn lemma_total_rows(d: u64)
    ensures
        tile_total(d) == line_total(board_row(d, 0)) + line_total(board_row(d, 1)) + line_total(
            board_row(d, 2),
        ) + line_total(board_row(d, 3)),
{
    reveal_with_fuel(tile_total_upto, 17);
    reveal_with_fuel(crate::table::line_total_upto, 6);
}

/// The board total is the sum of its column totals.
#[verifier::rlimit(100)]
proof fn lemma_total_cols(d: u64)
    ensures
        tile_total(d) == line_total(board_col(d, 0)) + line_total(board_col(d, 1)) + line_total(
            board_col(d, 2),
        ) + line_total(board_col(d, 3)),
{
    reveal_with_fuel(tile_total_upto, 17);
    reveal_with_fuel(crate::table::line_total_upto, 6);
    let s0 = board_col(d, 0);
    let s1 = board_col(d, 1);
    let s2 = board_col(d, 2);
    let s3 = board_col(d, 3);
    assert(s0[0] == nib(d, 0) && s0[1] == nib(d, 4) && s0[2] == nib(d, 8) && s0[3] == nib(d, 12));
    assert(s1[0] == nib(d, 1) && s1[1] == nib(d, 5) && s1[2] == nib(d, 9) && s1[3] == nib(d, 13));
    assert(s2[0] == nib(d, 2) && s2[1] == nib(d, 6) && s2[2] == nib(d, 10) && s2[3] == nib(d, 14));
    assert(s3[0] == nib(d, 3) && s3[1] == nib(d, 7) && s3[2] == nib(d, 11) && s3[3] == nib(d, 15));
}

/// Filling an empty cell adds exactly that tile's value.
#[verifier::rlimit(100)]
proof fn lemma_set_cell_total(d: u64, p: int, v: u64)
    requires
        0 <= p < 16,
        1 <= v < 16,
        nib(d, p) == 0,
    ensures
        tile_total(set_cell(d, p, v)) == tile_total(d) + cell_value(v),
        cell_value(v) > 0,
    decreases 0int,
{
    lemma_set_cell_props(d, p, v);
    reveal_with_fuel(tile_total_upto, 17);
    vstd::arithmetic::power2::lemma_pow2_pos(v as nat);
}

/// A move never conjures a tile above one step over the board's
/// largest exponent: every cell of every candidate word is at most
/// the doubled maximum (saturating at 15).
pub proof fn lemma_move_value_bound(d: u64, m: u64)
    requires
        m < 16,
        forall|i: int| 0 <= i < 16 ==> #[trigger] nib(d, i) <= m,
    ensures
        forall|i: int| 0 <= i < 16 ==> #[trigger] nib(left_word(d), i) <= cap_inc(m),
        forall|i: int| 0 <= i < 16 ==> #[trigger] nib(right_word(d), i) <= cap_inc(m),
        forall|i: int| 0 <= i < 16 ==> #[trigger] nib(up_word(d), i) <= cap_inc(m),
        forall|i: int| 0 <= i < 16 ==> #[trigger] nib(down_word(d), i) <= cap_inc(m),
{
    crate::codec::lemma_nib_bound_all(d);
    lemma_move_words_readback(d);
    lemma_compact_value_bound(board_row(d, 0), m);
    lemma_compact_value_bound(board_row(d, 1), m);
    lemma_compact_value_bound(board_row(d, 2), m);
    lemma_compact_value_bound(board_row(d, 3), m);
    lemma_compact_value_bound(board_col(d, 0), m);
    lemma_compact_value_bound(board_col(d, 1), m);
    lemma_compact_value_bound(board_col(d, 2), m);
    lemma_compact_value_bound(board_col(d, 3), m);
    assert forall|i: int| 0 <= i < 16 implies #[trigger] nib(left_word(d), i) <= cap_inc(m) by {
        assert(board_row(left_word(d), i / 4)[i % 4] == nib(left_word(d), i));
    }
    assert forall|i: int| 0 <= i < 16 implies #[trigger] nib(right_word(d), i) <= cap_inc(m) by {
        assert(board_row(right_word(d), i / 4)[i % 4] == nib(right_word(d), i));
    }
    assert forall|i: int| 0 <= i < 16 implies #[trigger] nib(up_word(d), i) <= cap_inc(m) by {
        assert(board_col(up_word(d), i % 4)[i / 4] == nib(up_word(d), i));
    }
    assert forall|i: int| 0 <= i < 16 implies #[trigger] nib(down_word(d), i) <= cap_inc(m) by {
        assert(board_col(down_word(d), i % 4)[i / 4] == nib(down_word(d), i));
    }
}

/// A legal move followed by its spawn never loses tile substance:
/// away from the saturation cap a move keeps the total tile value
/// exactly (each merge replaces two equal tiles by their doubled
/// value), and the spawn adds one tile, so the total strictly grows.
pub proof fn lemma_move_spawn_grows(e: Seq<Seed>, turn: int, d: u64, w: u64, free: int)
    requires
        crate::seeds::seeds_wf(e),
        0 <= turn < e.len(),
        forall|i: int| 0 <= i < 16 ==> #[trigger] nib(d, i) < 15,
        ((w == left_word(d) || w == right_word(d)) && free == free_rl_spec(d)) || ((w == up_word(
            d,
        ) || w == down_word(d)) && free == free_ud_spec(d)),
        w != d,
    ensures
        tile_total(w) == tile_total(d),
        tile_total(spawn_word(e, turn, w, free)) > tile_total(d),
{
    crate::codec::lemma_nib_bound_all(d);
    lemma_move_words_readback(d);
    lemma_move_legal(d);
    lemma_free_words(d);
    lemma_total_rows(d);
    lemma_total_cols(d);
    lemma_compact_total(board_row(d, 0));
    lemma_compact_total(board_row(d, 1));
    lemma_compact_total(board_row(d, 2));
    lemma_compact_total(board_row(d, 3));
    lemma_compact_total(board_col(d, 0));
    lemma_compact_total(board_col(d, 1));
    lemma_compact_total(board_col(d, 2));
    lemma_compact_total(board_col(d, 3));
    if w == left_word(d) || w == right_word(d) {
        lemma_total_rows(w);
    } else {
        lemma_total_cols(w);
    }
    assert(tile_total(w) == tile_total(d));
    let k = (e[turn].seed as int) % free;
    assert(free == empties(w));
    assert(free > 0);
    assert(0 <= k < free);
    lemma_scan_total(w);
    lemma_kth_empty_props(w, 0, k);
    let p = kth_empty(w, k);
    let v = e[turn].value as u64;
    assert(1 <= v < 16);
    lemma_set_cell_total(w, p, v);
}

/// The engine context: the move tables and the spawn sequence, built
/// once and passed by reference.
pub struct Setup {
    pub tables: Tables,
    pub seeds: SeedTable,
}

/// Builds the move tables and the spawn sequence for an initial seed.
pub fn set_up(seed: u64) -> (s: Setup)
    requires
        seed < 0x1_0000_0000,
    ensures
        s.tables.wf(),
        s.seeds.wf(),
        s.seeds.entries@ == seed_seq(seed, SEED_COUNT as nat),
        s.seeds.entries@.len() == SEED_COUNT,
{
    Setup { tables: Tables::new(), seeds: set_seed(seed) }
}

} // verus!
