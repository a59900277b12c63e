//! Packing and unpacking of 4-cell lines and 4x4 boards.
//!
//! A cell holds a tile exponent in `0..16`.  A line (a row or a column)
//! is 4 cells, packed into 16 bits, 4 bits per cell.  A board is 16
//! cells, packed into 64 bits; cell `i` of the board sits at bits
//! `4*i .. 4*i+4`, rows are contiguous (row `r` holds cells
//! `4*r .. 4*r+4`), columns have stride 4 (column `c` holds cells
//! `c, c+4, c+8, c+12`).

use vstd::prelude::*;

verus! {

/// Cell `i` of a packed word: the 4-bit field at bit `4*i`.
pub open spec fn nib(d: u64, i: int) -> u64 {
    (d >> (4 * i)) & 0xf
}

/// The 4 cells of a packed 16-bit line, low cell first.
pub open spec fn line16(x: u16) -> Seq<u64> {
    Seq::new(4, |i: int| nib(x as u64, i))
}

/// A cell sequence as mathematical values.
pub open spec fn cells64(s: Seq<i32>) -> Seq<u64> {
    Seq::new(s.len(), |i: int| s[i] as u64)
}

/// 4 cells packed into the low 16 bits of a word.
pub open spec fn pack16(s: Seq<u64>) -> u64 {
    s[0] | (s[1] << 4) | (s[2] << 8) | (s[3] << 12)
}

/// 4 cells spread over a 64-bit word at 16-bit stride, so that the
/// packed value can be OR-shifted into a column position.
pub open spec fn spread64(s: Seq<u64>) -> u64 {
    s[0] | (s[1] << 16) | (s[2] << 32) | (s[3] << 48)
}

/// Row `r` of a packed board, left cell first.
pub open spec fn board_row(d: u64, r: int) -> Seq<u64> {
    Seq::new(4, |c: int| nib(d, 4 * r + c))
}

/// Column `c` of a packed board, top cell first.
pub open spec fn board_col(d: u64, c: int) -> Seq<u64> {
    Seq::new(4, |r: int| nib(d, 4 * r + c))
}

/// Every 4-bit field is below 16.
pub proof fn lemma_nib_bound(d: u64, i: u64)
    by (bit_vector)
    requires
        i < 16,
    ensures
        nib(d, i as int) < 16,
{
}

/// Every 4-bit field of a word is below 16.
pub proof fn lemma_nib_bound_all(d: u64)
    ensures
        forall|i: int| 0 <= i < 16 ==> #[trigger] nib(d, i) < 16,
{
    assert forall|i: int| 0 <= i < 16 implies #[trigger] nib(d, i) < 16 by {
        lemma_nib_bound(d, i as u64);
    }
}

/// Unpacking a 16-bit line: the four shifted-and-masked fields are the
/// four cells.
pub proof fn lemma_u16_nibs(d: u16)
    by (bit_vector)
    ensures
        ((d >> 0) & 0xf) as u64 == nib(d as u64, 0),
        ((d >> 4) & 0xf) as u64 == nib(d as u64, 1),
        ((d >> 8) & 0xf) as u64 == nib(d as u64, 2),
        ((d >> 12) & 0xf) as u64 == nib(d as u64, 3),
        nib(d as u64, 0) < 16,
        nib(d as u64, 1) < 16,
        nib(d as u64, 2) < 16,
        nib(d as u64, 3) < 16,
{
}

/// Packing four cells into 16 bits: the packed value stays below
/// `2^16` and each cell can be read back.
pub proof fn lemma_pack16_exec(a0: i32, a1: i32, a2: i32, a3: i32)
    by (bit_vector)
    requires
        0 <= a0 < 16,
        0 <= a1 < 16,
        0 <= a2 < 16,
        0 <= a3 < 16,
    ensures
        ((a0 as u16) | ((a1 as u16) << 4) | ((a2 as u16) << 8) | ((a3 as u16) << 12)) as u64
            == ((a0 as u64) | ((a1 as u64) << 4) | ((a2 as u64) << 8) | ((a3 as u64) << 12)),
        ((a0 as u64) | ((a1 as u64) << 4) | ((a2 as u64) << 8) | ((a3 as u64) << 12)) < 0x10000,
        nib((a0 as u64) | ((a1 as u64) << 4) | ((a2 as u64) << 8) | ((a3 as u64) << 12), 0)
            == a0 as u64,
        nib((a0 as u64) | ((a1 as u64) << 4) | ((a2 as u64) << 8) | ((a3 as u64) << 12), 1)
            == a1 as u64,
        nib((a0 as u64) | ((a1 as u64) << 4) | ((a2 as u64) << 8) | ((a3 as u64) << 12), 2)
            == a2 as u64,
        nib((a0 as u64) | ((a1 as u64) << 4) | ((a2 as u64) << 8) | ((a3 as u64) << 12), 3)
            == a3 as u64,
{
}

/// Spreading four cells at 16-bit stride: cells land at positions
/// 0, 4, 8, 12 of the spread word and every other 4-bit field is zero.
pub proof fn lemma_spread64_exec(a0: i32, a1: i32, a2: i32, a3: i32)
    by (bit_vector)
    requires
        0 <= a0 < 16,
        0 <= a1 < 16,
        0 <= a2 < 16,
        0 <= a3 < 16,
    ensures
        nib((a0 as u64) | ((a1 as u64) << 16) | ((a2 as u64) << 32) | ((a3 as u64) << 48), 0)
            == a0 as u64,
        nib((a0 as u64) | ((a1 as u64) << 16) | ((a2 as u64) << 32) | ((a3 as u64) << 48), 4)
            == a1 as u64,
        nib((a0 as u64) | ((a1 as u64) << 16) | ((a2 as u64) << 32) | ((a3 as u64) << 48), 8)
            == a2 as u64,
        nib((a0 as u64) | ((a1 as u64) << 16) | ((a2 as u64) << 32) | ((a3 as u64) << 48), 12)
            == a3 as u64,
{
}

/// Packing four cell values: the packed word stays below `2^16` and
/// each cell can be read back.
pub proof fn lemma_pack16_vals(n0: u64, n1: u64, n2: u64, n3: u64)
    by (bit_vector)
    requires
        n0 < 16,
        n1 < 16,
        n2 < 16,
        n3 < 16,
    ensures
        (n0 | (n1 << 4) | (n2 << 8) | (n3 << 12)) < 0x10000,
        nib(n0 | (n1 << 4) | (n2 << 8) | (n3 << 12), 0) == n0,
        nib(n0 | (n1 << 4) | (n2 << 8) | (n3 << 12), 1) == n1,
        nib(n0 | (n1 << 4) | (n2 << 8) | (n3 << 12), 2) == n2,
        nib(n0 | (n1 << 4) | (n2 << 8) | (n3 << 12), 3) == n3,
{
}

/// Spreading four cell values at 16-bit stride: only the 4-bit fields
/// at positions 0, 4, 8, 12 are used, and each holds its cell.
pub proof fn lemma_spread64_vals(n0: u64, n1: u64, n2: u64, n3: u64)
    by (bit_vector)
    requires
        n0 < 16,
        n1 < 16,
        n2 < 16,
        n3 < 16,
    ensures
        (n0 | (n1 << 16) | (n2 << 32) | (n3 << 48)) & 0x000f_000f_000f_000f
            == (n0 | (n1 << 16) | (n2 << 32) | (n3 << 48)),
        nib(n0 | (n1 << 16) | (n2 << 32) | (n3 << 48), 0) == n0,
        nib(n0 | (n1 << 16) | (n2 << 32) | (n3 << 48), 4) == n1,
        nib(n0 | (n1 << 16) | (n2 << 32) | (n3 << 48), 8) == n2,
        nib(n0 | (n1 << 16) | (n2 << 32) | (n3 << 48), 12) == n3,
{
}

/// Splits a packed 16-bit line into its 4 cells.
pub fn u16_to_data(d: u16) -> (res: [i32; 4])
    ensures
        cells64(res@) == line16(d),
        forall|j: int| 0 <= j < 4 ==> 0 <= #[trigger] res@[j] < 16,
{
    let res = [
        ((d >> 0) & 0xf) as i32,
        ((d >> 4) & 0xf) as i32,
        ((d >> 8) & 0xf) as i32,
        ((d >> 12) & 0xf) as i32,
    ];
    proof {
        lemma_u16_nibs(d);
        assert(cells64(res@) =~= line16(d));
    }
    res
}

/// Packs 4 cells into a 16-bit line.
pub fn data_to_u16(data: &[i32; 4]) -> (r: u16)
    requires
        forall|j: int| 0 <= j < 4 ==> 0 <= #[trigger] data@[j] < 16,
    ensures
        r as u64 == pack16(cells64(data@)),
        forall|c: int| 0 <= c < 4 ==> #[trigger] nib(r as u64, c) == cells64(data@)[c],
{
    let r = (data[0] as u16) | ((data[1] as u16) << 4) | ((data[2] as u16) << 8)
        | ((data[3] as u16) << 12);
    proof {
        lemma_pack16_exec(data[0], data[1], data[2], data[3]);
    }
    r
}

/// Spreads 4 cells over a 64-bit word at 16-bit stride (the column
/// form used by the vertical move tables).
pub fn data_to_u64(data: &[i32; 4]) -> (r: u64)
    requires
        forall|j: int| 0 <= j < 4 ==> 0 <= #[trigger] data@[j] < 16,
    ensures
        r == spread64(cells64(data@)),
        nib(r, 0) == cells64(data@)[0],
        nib(r, 4) == cells64(data@)[1],
        nib(r, 8) == cells64(data@)[2],
        nib(r, 12) == cells64(data@)[3],
{
    let r = (data[0] as u64) | ((data[1] as u64) << 16) | ((data[2] as u64) << 32)
        | ((data[3] as u64) << 48);
    proof {
        lemma_spread64_exec(data[0], data[1], data[2], data[3]);
    }
    r
}

} // verus!
