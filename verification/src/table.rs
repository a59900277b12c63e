//! Line compaction and the precomputed move tables.
//!
//! A move slides the 4 cells of every line toward one end: zeros are
//! squeezed out, and when two equal tiles become adjacent in scan
//! order they merge into a single tile one exponent higher (each tile
//! merges at most once per move, the pair nearest the scan end first).
//! A merge at the maximum exponent 15 saturates there instead of
//! wrapping.
//!
//! `Tables` holds the result of that rule for all 65536 packed lines,
//! in the row form (16-bit packed) and in the column form (spread over
//! a 64-bit word at 16-bit stride), together with the number of empty
//! cells left after the move.

use vstd::prelude::*;

use crate::codec::{
    board_col, board_row, cells64, data_to_u16, data_to_u64, line16, nib, pack16, spread64,
    u16_to_data,
};

verus! {

/// One exponent step up, saturating at the largest representable tile.
pub open spec fn cap_inc(v: u64) -> u64 {
    if v >= 15 {
        15u64
    } else {
        (v + 1) as u64
    }
}

/// The non-zero cells among the first `i` cells of `s`, in order.
pub open spec fn nonzeros_upto(s: Seq<u64>, i: int) -> Seq<u64>
    decreases i,
{
    if i <= 0 {
        Seq::empty()
    } else if s[i - 1] == 0 {
        nonzeros_upto(s, i - 1)
    } else {
        nonzeros_upto(s, i - 1) + seq![s[i - 1]]
    }
}

/// The non-zero cells of `s`, in order.
pub open spec fn nonzeros(s: Seq<u64>) -> Seq<u64> {
    nonzeros_upto(s, s.len() as int)
}

/// Merges a zero-free run from position `i` on: two equal adjacent
/// cells become one cell a step higher (saturating), each cell merges
/// at most once, the pair nearest the scan end first.
pub open spec fn merge_from(s: Seq<u64>, i: int) -> Seq<u64>
    decreases s.len() - i,
{
    if i < 0 || i >= s.len() {
        Seq::empty()
    } else if i + 1 < s.len() && s[i] == s[i + 1] {
        seq![cap_inc(s[i])] + merge_from(s, i + 2)
    } else {
        seq![s[i]] + merge_from(s, i + 1)
    }
}

/// Pads a merged run with zeros to a full 4-cell line.
pub open spec fn pad4(m: Seq<u64>) -> Seq<u64> {
    Seq::new(4, |i: int| if 0 <= i < m.len() { m[i] } else { 0u64 })
}

/// The line compacted toward the low index: squeeze out zeros, merge
/// equal adjacent cells once (leftmost pair first), pad with zeros.
pub open spec fn compact_left(s: Seq<u64>) -> Seq<u64> {
    pad4(merge_from(nonzeros(s), 0))
}

/// A sequence read back to front.
pub open spec fn rev_seq(s: Seq<u64>) -> Seq<u64> {
    Seq::new(s.len(), |i: int| s[s.len() - 1 - i])
}

/// The line compacted toward the high index: the mirror image of
/// compacting the mirrored line toward the low index.
pub open spec fn compact_right(s: Seq<u64>) -> Seq<u64> {
    rev_seq(compact_left(rev_seq(s)))
}

/// How many of the first `i` cells of `s` are zero.
pub open spec fn zeros_upto(s: Seq<u64>, i: int) -> int
    decreases i,
{
    if i <= 0 {
        0
    } else {
        zeros_upto(s, i - 1) + if s[i - 1] == 0 {
            1int
        } else {
            0int
        }
    }
}

/// How many cells of `s` are zero.
pub open spec fn count_zeros(s: Seq<u64>) -> int {
    zeros_upto(s, s.len() as int)
}

/// Compacts a line toward the low index.
pub fn calc_line_l(data: &[i32; 4]) -> (res: [i32; 4])
    requires
        forall|j: int| 0 <= j < 4 ==> 0 <= #[trigger] data@[j] < 16,
    ensures
        cells64(res@) == compact_left(cells64(data@)),
        forall|j: int| 0 <= j < 4 ==> 0 <= #[trigger] res@[j] < 16,
{
    let ghost s = cells64(data@);
    // squeeze out the zeros
    let mut nz: Vec<i32> = Vec::new();
    let mut j: usize = 0;
    while j < 4
        invariant
            j <= 4,
            forall|k: int| 0 <= k < 4 ==> 0 <= #[trigger] data@[k] < 16,
            s == cells64(data@),
            cells64(nz@) == nonzeros_upto(s, j as int),
            nz@.len() <= j,
            forall|k: int| 0 <= k < nz@.len() ==> 1 <= #[trigger] nz@[k] < 16,
        decreases 4 - j,
    {
        if data[j] != 0 {
            nz.push(data[j]);
        }
        proof {
            assert(cells64(nz@) =~= nonzeros_upto(s, j + 1));
        }
        j += 1;
    }
    let ghost q = cells64(nz@);
    // merge equal adjacent cells, leftmost pair first
    let mut out: Vec<i32> = Vec::new();
    let mut i: usize = 0;
    while i < nz.len()
        invariant
            i <= nz@.len(),
            nz@.len() <= 4,
            q == cells64(nz@),
            forall|k: int| 0 <= k < nz@.len() ==> 1 <= #[trigger] nz@[k] < 16,
            cells64(out@) + merge_from(q, i as int) == merge_from(q, 0),
            out@.len() <= i,
            forall|k: int| 0 <= k < out@.len() ==> 1 <= #[trigger] out@[k] < 16,
        decreases nz@.len() - i,
    {
        let ghost out0 = cells64(out@);
        if i + 1 < nz.len() && nz[i] == nz[i + 1] {
            let v = nz[i];
            out.push(if v != 15 {
                v + 1
            } else {
                15
            });
            proof {
                assert(cells64(out@) =~= out0 + seq![cap_inc(q[i as int])]);
                assert(cells64(out@) + merge_from(q, i + 2) =~= out0 + merge_from(q, i as int));
            }
            i += 2;
        } else {
            out.push(nz[i]);
            proof {
                assert(cells64(out@) =~= out0 + seq![q[i as int]]);
                assert(cells64(out@) + merge_from(q, i + 1) =~= out0 + merge_from(q, i as int));
            }
            i += 1;
        }
    }
    proof {
        assert(cells64(out@) + merge_from(q, nz@.len() as int) =~= cells64(out@));
        assert(cells64(out@) =~= merge_from(q, 0));
    }
    // pad with zeros to a full line
    let r0 = if out.len() > 0 { out[0] } else { 0 };
    let r1 = if out.len() > 1 { out[1] } else { 0 };
    let r2 = if out.len() > 2 { out[2] } else { 0 };
    let r3 = if out.len() > 3 { out[3] } else { 0 };
    let res = [r0, r1, r2, r3];
    proof {
        assert(cells64(res@) =~= pad4(merge_from(nonzeros(s), 0)));
    }
    res
}

/// Compacts a line toward the high index (the mirror image of
/// `calc_line_l` on the mirrored line).
pub fn calc_line_r(data: &[i32; 4]) -> (res: [i32; 4])
    requires
        forall|j: int| 0 <= j < 4 ==> 0 <= #[trigger] data@[j] < 16,
    ensures
        cells64(res@) == compact_right(cells64(data@)),
        forall|j: int| 0 <= j < 4 ==> 0 <= #[trigger] res@[j] < 16,
{
    let rev = [data[3], data[2], data[1], data[0]];
    proof {
        assert(cells64(rev@) =~= rev_seq(cells64(data@)));
    }
    let out = calc_line_l(&rev);
    let res = [out[3], out[2], out[1], out[0]];
    proof {
        assert(cells64(res@) =~= rev_seq(cells64(out@)));
        assert(cells64(res@) =~= compact_right(cells64(data@)));
    }
    res
}

/// Counts the empty cells of a line.
pub fn count_zero_cells(data: &[i32; 4]) -> (n: usize)
    requires
        forall|j: int| 0 <= j < 4 ==> 0 <= #[trigger] data@[j] < 16,
    ensures
        n == count_zeros(cells64(data@)),
        n <= 4,
{
    let mut n: usize = 0;
    let mut j: usize = 0;
    while j < 4
        invariant
            j <= 4,
            n <= j,
            forall|k: int| 0 <= k < 4 ==> 0 <= #[trigger] data@[k] < 16,
            n == zeros_upto(cells64(data@), j as int),
        decreases 4 - j,
    {
        if data[j] == 0 {
            n += 1;
        }
        j += 1;
    }
    n
}

/// At most `i` of the first `i` cells are zero.
pub proof fn lemma_zeros_upto_bounds(s: Seq<u64>, i: int)
    requires
        0 <= i,
    ensures
        0 <= zeros_upto(s, i) <= i,
    decreases i,
{
    if i > 0 {
        lemma_zeros_upto_bounds(s, i - 1);
    }
}

/// Squeezing keeps at most `i` cells, all non-zero and below 16.
pub proof fn lemma_nonzeros_upto_props(s: Seq<u64>, i: int)
    requires
        0 <= i <= s.len(),
        forall|j: int| 0 <= j < s.len() ==> #[trigger] s[j] < 16,
    ensures
        nonzeros_upto(s, i).len() <= i,
        forall|k: int|
            0 <= k < nonzeros_upto(s, i).len() ==> 1 <= #[trigger] nonzeros_upto(s, i)[k] < 16,
    decreases i,
{
    if i > 0 {
        lemma_nonzeros_upto_props(s, i - 1);
    }
}

/// Merging a zero-free run keeps at most as many cells, all non-zero
/// and below 16.
pub proof fn lemma_merge_from_props(s: Seq<u64>, i: int)
    requires
        0 <= i,
        forall|j: int| 0 <= j < s.len() ==> 1 <= #[trigger] s[j] < 16,
    ensures
        merge_from(s, i).len() <= s.len() - i || merge_from(s, i).len() == 0,
        forall|k: int|
            0 <= k < merge_from(s, i).len() ==> 1 <= #[trigger] merge_from(s, i)[k] < 16,
    decreases s.len() - i,
{
    if i < s.len() {
        if i + 1 < s.len() && s[i] == s[i + 1] {
            lemma_merge_from_props(s, i + 2);
        } else {
            lemma_merge_from_props(s, i + 1);
        }
    }
}

/// A compacted line is again a full line of cells below 16.
pub proof fn lemma_compact_props(s: Seq<u64>)
    requires
        s.len() == 4,
        forall|j: int| 0 <= j < 4 ==> #[trigger] s[j] < 16,
    ensures
        compact_left(s).len() == 4,
        forall|j: int| 0 <= j < 4 ==> #[trigger] compact_left(s)[j] < 16,
        compact_right(s).len() == 4,
        forall|j: int| 0 <= j < 4 ==> #[trigger] compact_right(s)[j] < 16,
{
    lemma_nonzeros_upto_props(s, 4);
    lemma_merge_from_props(nonzeros(s), 0);
    let r = rev_seq(s);
    assert(forall|j: int| 0 <= j < 4 ==> #[trigger] r[j] < 16);
    lemma_nonzeros_upto_props(r, 4);
    lemma_merge_from_props(nonzeros(r), 0);
}

/// Padding a zero-free merged run to a full line leaves exactly the
/// padding cells empty.
proof fn lemma_pad4_zeros(m: Seq<u64>)
    requires
        m.len() <= 4,
        forall|k: int| 0 <= k < m.len() ==> #[trigger] m[k] != 0,
    ensures
        count_zeros(pad4(m)) == 4 - m.len(),
{
    reveal_with_fuel(zeros_upto, 6);
}

/// Mirroring a full line keeps its number of empty cells.
proof fn lemma_rev_zeros(x: Seq<u64>)
    requires
        x.len() == 4,
    ensures
        count_zeros(rev_seq(x)) == count_zeros(x),
{
    reveal_with_fuel(zeros_upto, 6);
}

/// Mirroring twice gives the line back.
proof fn lemma_rev_rev(s: Seq<u64>)
    ensures
        rev_seq(rev_seq(s)) == s,
{
    assert(rev_seq(rev_seq(s)) =~= s);
}

/// Squeezing the zeros out of a mirrored line mirrors the squeezed
/// line.
proof fn lemma_nonzeros_rev(s: Seq<u64>)
    requires
        s.len() == 4,
    ensures
        nonzeros(rev_seq(s)) == rev_seq(nonzeros(s)),
{
    reveal_with_fuel(nonzeros_upto, 6);
    assert(nonzeros(rev_seq(s)) =~= rev_seq(nonzeros(s)));
}

/// Merging a mirrored zero-free run yields as many cells as merging
/// the run itself.
proof fn lemma_merge_len_rev(q: Seq<u64>)
    requires
        q.len() <= 4,
    ensures
        merge_from(rev_seq(q), 0).len() == merge_from(q, 0).len(),
{
    reveal_with_fuel(merge_from, 6);
    let r = rev_seq(q);
    if q.len() == 0 {
        assert(r =~= q);
    } else if q.len() == 1 {
        assert(r[0] == q[0]);
    } else if q.len() == 2 {
        assert(r[0] == q[1] && r[1] == q[0]);
    } else if q.len() == 3 {
        assert(r[0] == q[2] && r[1] == q[1] && r[2] == q[0]);
    } else {
        assert(r[0] == q[3] && r[1] == q[2] && r[2] == q[1] && r[3] == q[0]);
    }
}

/// A move never changes the number of empty cells it leaves with the
/// scan direction: compacting a line toward either end empties the
/// same number of cells.
pub proof fn lemma_compact_counts(s: Seq<u64>)
    requires
        s.len() == 4,
        forall|j: int| 0 <= j < 4 ==> #[trigger] s[j] < 16,
    ensures
        count_zeros(compact_left(s)) == count_zeros(compact_right(s)),
        0 <= count_zeros(compact_left(s)) <= 4,
{
    let q = nonzeros(s);
    lemma_nonzeros_upto_props(s, 4);
    lemma_merge_from_props(q, 0);
    lemma_pad4_zeros(merge_from(q, 0));
    let r = rev_seq(s);
    assert(forall|j: int| 0 <= j < 4 ==> #[trigger] r[j] < 16);
    let qr = nonzeros(r);
    lemma_nonzeros_upto_props(r, 4);
    lemma_merge_from_props(qr, 0);
    lemma_pad4_zeros(merge_from(qr, 0));
    lemma_nonzeros_rev(s);
    lemma_merge_len_rev(q);
    lemma_compact_props(s);
    assert(forall|j: int| 0 <= j < 4 ==> #[trigger] compact_left(r)[j] < 16) by {
        lemma_compact_props(r);
    }
    lemma_rev_zeros(compact_left(r));
}

/// A compacted line with no empty cell is the line itself: only a
/// full line without an adjacent equal pair compacts to itself, and
/// then the move is illegal.
pub proof fn lemma_compact_identity(s: Seq<u64>)
    requires
        s.len() == 4,
        forall|j: int| 0 <= j < 4 ==> #[trigger] s[j] < 16,
    ensures
        count_zeros(compact_left(s)) == 0 ==> compact_left(s) == s,
        count_zeros(compact_right(s)) == 0 ==> compact_right(s) == s,
{
    lemma_compact_identity_left(s);
    let r = rev_seq(s);
    assert(forall|j: int| 0 <= j < 4 ==> #[trigger] r[j] < 16);
    lemma_compact_identity_left(r);
    if count_zeros(compact_right(s)) == 0 {
        lemma_compact_props(r);
        lemma_rev_zeros(compact_left(r));
        assert(compact_left(r) == r);
        lemma_rev_rev(s);
    }
}

/// The one-sided part of `lemma_compact_identity`.
proof fn lemma_compact_identity_left(s: Seq<u64>)
    requires
        s.len() == 4,
        forall|j: int| 0 <= j < 4 ==> #[trigger] s[j] < 16,
    ensures
        count_zeros(compact_left(s)) == 0 ==> compact_left(s) == s,
{
    if count_zeros(compact_left(s)) == 0 {
        let q = nonzeros(s);
        lemma_nonzeros_upto_props(s, 4);
        lemma_merge_from_props(q, 0);
        lemma_pad4_zeros(merge_from(q, 0));
        assert(merge_from(q, 0).len() == 4);
        lemma_merge_from_props(q, 1);
        lemma_merge_from_props(q, 2);
        lemma_merge_from_props(q, 3);
        lemma_merge_from_props(q, 4);
        reveal_with_fuel(merge_from, 6);
        reveal_with_fuel(nonzeros_upto, 6);
        assert(q.len() == 4);
        assert(q =~= s);
        assert(merge_from(q, 0) =~= q);
        assert(compact_left(s) =~= s);
    }
}

/// The tile value a cell carries: nothing when empty, `2^e` for
/// exponent `e`.
pub open spec fn cell_value(v: u64) -> int {
    if v == 0 {
        0
    } else {
        vstd::arithmetic::power2::pow2(v as nat) as int
    }
}

/// The total tile value of the first `i` cells.
pub open spec fn line_total_upto(s: Seq<u64>, i: int) -> int
    decreases i,
{
    if i <= 0 {
        0
    } else {
        line_total_upto(s, i - 1) + cell_value(s[i - 1])
    }
}

/// The total tile value of a line.
pub open spec fn line_total(s: Seq<u64>) -> int {
    line_total_upto(s, s.len() as int)
}

/// Compacting never conjures a tile above one step over the largest
/// input: every output cell is an input cell or a single merge of
/// two equal input cells.
pub proof fn lemma_compact_value_bound(s: Seq<u64>, m: u64)
    requires
        s.len() == 4,
        forall|j: int| 0 <= j < 4 ==> #[trigger] s[j] < 16,
        forall|j: int| 0 <= j < 4 ==> #[trigger] s[j] <= m,
    ensures
        forall|j: int| 0 <= j < 4 ==> #[trigger] compact_left(s)[j] <= cap_inc(m),
        forall|j: int| 0 <= j < 4 ==> #[trigger] compact_right(s)[j] <= cap_inc(m),
{
    lemma_compact_value_bound_left(s, m);
    let r = rev_seq(s);
    assert(forall|j: int| 0 <= j < 4 ==> #[trigger] r[j] < 16 && r[j] <= m);
    lemma_compact_value_bound_left(r, m);
    lemma_compact_props(r);
    assert(forall|j: int|
        0 <= j < 4 ==> #[trigger] compact_right(s)[j] == compact_left(r)[3 - j]);
}

/// The one-sided part of `lemma_compact_value_bound`.
#[verifier::rlimit(100)]
proof fn lemma_compact_value_bound_left(s: Seq<u64>, m: u64)
    requires
        s.len() == 4,
        forall|j: int| 0 <= j < 4 ==> #[trigger] s[j] < 16,
        forall|j: int| 0 <= j < 4 ==> #[trigger] s[j] <= m,
    ensures
        forall|j: int| 0 <= j < 4 ==> #[trigger] compact_left(s)[j] <= cap_inc(m),
{
    reveal_with_fuel(nonzeros_upto, 6);
    reveal_with_fuel(merge_from, 6);
    lemma_nonzeros_upto_props(s, 4);
    lemma_merge_from_props(nonzeros(s), 0);
}

/// Two equal tiles merge into exactly their sum: `2^e + 2^e` is
/// `2^(e+1)`.
proof fn lemma_merge_value(v: u64)
    requires
        1 <= v < 15,
    ensures
        cell_value(cap_inc(v)) == cell_value(v) + cell_value(v),
{
    vstd::arithmetic::power2::lemma_pow2_unfold((v + 1) as nat);
}

/// Away from the saturation cap, compacting preserves the total
/// tile value: shifts move tiles and every merge replaces two equal
/// tiles by their exact sum.
pub proof fn lemma_compact_total(s: Seq<u64>)
    requires
        s.len() == 4,
        forall|j: int| 0 <= j < 4 ==> #[trigger] s[j] < 15,
    ensures
        line_total(compact_left(s)) == line_total(s),
        line_total(compact_right(s)) == line_total(s),
{
    lemma_compact_total_left(s);
    let r = rev_seq(s);
    assert(forall|j: int| 0 <= j < 4 ==> #[trigger] r[j] < 15);
    lemma_compact_total_left(r);
    lemma_compact_props(r);
    reveal_with_fuel(line_total_upto, 6);
    assert(line_total(compact_right(s)) == line_total(compact_left(r)));
    assert(line_total(r) == line_total(s));
}

/// The one-sided part of `lemma_compact_total`.
#[verifier::rlimit(100)]
proof fn lemma_compact_total_left(s: Seq<u64>)
    requires
        s.len() == 4,
        forall|j: int| 0 <= j < 4 ==> #[trigger] s[j] < 15,
    ensures
        line_total(compact_left(s)) == line_total(s),
{
    reveal_with_fuel(nonzeros_upto, 6);
    reveal_with_fuel(merge_from, 6);
    reveal_with_fuel(line_total_upto, 6);
    let q = nonzeros(s);
    lemma_nonzeros_upto_props(s, 4);
    lemma_merge_from_props(q, 0);
    assert(line_total(q) == line_total(s));
    if q.len() >= 2 && q[0] == q[1] {
        lemma_merge_value(q[0]);
    }
    if q.len() >= 3 && q[1] == q[2] {
        lemma_merge_value(q[1]);
    }
    if q.len() == 4 && q[2] == q[3] {
        lemma_merge_value(q[2]);
    }
    assert(line_total(merge_from(q, 0)) == line_total(q));
    assert(line_total(compact_left(s)) == line_total(merge_from(q, 0)));
}

/// A row table entry: the packed line compacted toward each end, and
/// the number of empty cells after the move.
#[derive(Clone, Copy, Debug)]
pub struct RowData {
    pub right: u16,
    pub left: u16,
    pub free: usize,
}

impl RowData {
    /// Packs the two compacted forms of a line into a row entry.
    pub fn new(data_r: &[i32; 4], data_l: &[i32; 4]) -> (r: RowData)
        requires
            forall|j: int| 0 <= j < 4 ==> 0 <= #[trigger] data_r@[j] < 16,
            forall|j: int| 0 <= j < 4 ==> 0 <= #[trigger] data_l@[j] < 16,
        ensures
            r.right as u64 == pack16(cells64(data_r@)),
            r.left as u64 == pack16(cells64(data_l@)),
            r.free == count_zeros(cells64(data_r@)),
    {
        RowData {
            right: data_to_u16(data_r),
            left: data_to_u16(data_l),
            free: count_zero_cells(data_r),
        }
    }
}

/// A column table entry: the compacted line in spread (column) form,
/// and the number of empty cells after the move.
#[derive(Clone, Copy, Debug)]
pub struct ColData {
    pub up: u64,
    pub down: u64,
    pub free: usize,
}

impl ColData {
    /// Spreads the two compacted forms of a line into a column entry.
    pub fn new(data_u: &[i32; 4], data_d: &[i32; 4]) -> (r: ColData)
        requires
            forall|j: int| 0 <= j < 4 ==> 0 <= #[trigger] data_u@[j] < 16,
            forall|j: int| 0 <= j < 4 ==> 0 <= #[trigger] data_d@[j] < 16,
        ensures
            r.up == spread64(cells64(data_u@)),
            r.down == spread64(cells64(data_d@)),
            r.free == count_zeros(cells64(data_u@)),
    {
        ColData {
            up: data_to_u64(data_u),
            down: data_to_u64(data_d),
            free: count_zero_cells(data_u),
        }
    }
}

/// What the row entry for packed line `x` must hold.
pub open spec fn row_ok(x: int, e: RowData) -> bool {
    &&& e.left as u64 == pack16(compact_left(line16(x as u16)))
    &&& e.right as u64 == pack16(compact_right(line16(x as u16)))
    &&& e.free == count_zeros(compact_right(line16(x as u16)))
}

/// What the column entry for packed line `x` must hold.  Compacting
/// toward the low index moves a column up, toward the high index down.
pub open spec fn col_ok(x: int, e: ColData) -> bool {
    &&& e.up == spread64(compact_left(line16(x as u16)))
    &&& e.down == spread64(compact_right(line16(x as u16)))
    &&& e.free == count_zeros(compact_left(line16(x as u16)))
}

/// Builds the row and column entries for one packed line.
pub fn calc_line(data: &[i32; 4]) -> (r: (RowData, ColData))
    requires
        forall|j: int| 0 <= j < 4 ==> 0 <= #[trigger] data@[j] < 16,
    ensures
        r.0.left as u64 == pack16(compact_left(cells64(data@))),
        r.0.right as u64 == pack16(compact_right(cells64(data@))),
        r.0.free == count_zeros(compact_right(cells64(data@))),
        r.1.up == spread64(compact_left(cells64(data@))),
        r.1.down == spread64(compact_right(cells64(data@))),
        r.1.free == count_zeros(compact_left(cells64(data@))),
{
    let data_l = calc_line_l(data);
    let data_r = calc_line_r(data);
    (RowData::new(&data_r, &data_l), ColData::new(&data_l, &data_r))
}

/// The move tables over all 65536 packed lines.
pub struct Tables {
    pub rows: Vec<RowData>,
    pub cols: Vec<ColData>,
}

impl Tables {
    /// Both tables are complete and every entry is the compaction of
    /// its line.
    pub open spec fn wf(self) -> bool {
        &&& self.rows@.len() == 65536
        &&& self.cols@.len() == 65536
        &&& forall|x: int| 0 <= x < 65536 ==> row_ok(x, #[trigger] self.rows@[x])
        &&& forall|x: int| 0 <= x < 65536 ==> col_ok(x, #[trigger] self.cols@[x])
    }

    /// Builds the tables by compacting every possible line once.
    pub fn new() -> (t: Tables)
        ensures
            t.wf(),
    {
        let mut rows: Vec<RowData> = Vec::new();
        let mut cols: Vec<ColData> = Vec::new();
        let mut x: usize = 0;
        while x < 65536
            invariant
                x <= 65536,
                rows@.len() == x,
                cols@.len() == x,
                forall|y: int| 0 <= y < x ==> row_ok(y, #[trigger] rows@[y]),
                forall|y: int| 0 <= y < x ==> col_ok(y, #[trigger] cols@[y]),
            decreases 65536 - x,
        {
            let d = x as u16;
            proof {
                lemma_u16_cast(x);
            }
            let data = u16_to_data(d);
            let (row, col) = calc_line(&data);
            rows.push(row);
            cols.push(col);
            x += 1;
        }
        Tables { rows, cols }
    }
}

/// Truncating a value below `2^16` to 16 bits keeps it.
proof fn lemma_u16_cast(x: usize)
    by (bit_vector)
    requires
        x < 65536,
    ensures
        (x as u16) as int == x as int,
{
}

} // verus!
