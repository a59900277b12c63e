use engine2048::codec::{data_to_u16, u16_to_data};
use engine2048::table::{calc_line_l, calc_line_r, Tables};

/// The compaction rule, written independently: slide the non-zero
/// cells left, then merge each adjacent equal pair once, leftmost
/// pair first, saturating at 15.
fn naive_compact_left(line: [i32; 4]) -> [i32; 4] {
    let nz: Vec<i32> = line.iter().copied().filter(|&x| x != 0).collect();
    let mut out: Vec<i32> = Vec::new();
    let mut i = 0;
    while i < nz.len() {
        if i + 1 < nz.len() && nz[i] == nz[i + 1] {
            out.push(if nz[i] == 15 { 15 } else { nz[i] + 1 });
            i += 2;
        } else {
            out.push(nz[i]);
            i += 1;
        }
    }
    let mut res = [0i32; 4];
    for (k, v) in out.iter().enumerate() {
        res[k] = *v;
    }
    res
}

#[test]
fn compact_concrete_lines() {
    assert_eq!(calc_line_l(&[1, 1, 0, 0]), [2, 0, 0, 0]);
    assert_eq!(calc_line_l(&[1, 1, 1, 0]), [2, 1, 0, 0]);
    assert_eq!(calc_line_l(&[1, 1, 2, 2]), [2, 3, 0, 0]);
    assert_eq!(calc_line_l(&[0, 2, 0, 2]), [3, 0, 0, 0]);
    assert_eq!(calc_line_l(&[15, 15, 0, 0]), [15, 0, 0, 0]);
    assert_eq!(calc_line_r(&[0, 0, 1, 1]), [0, 0, 0, 2]);
    assert_eq!(calc_line_r(&[1, 1, 1, 0]), [0, 0, 1, 2]);
}

#[test]
fn compact_matches_reference_everywhere() {
    for x in 0..=65535u16 {
        let cells = u16_to_data(x);
        let expect = naive_compact_left(cells);
        assert_eq!(calc_line_l(&cells), expect, "line {:04x}", x);
        let mut rev = cells;
        rev.reverse();
        let mut expect_r = naive_compact_left(rev);
        expect_r.reverse();
        assert_eq!(calc_line_r(&cells), expect_r, "line {:04x}", x);
    }
}

#[test]
fn tables_match_reference_everywhere() {
    let t = Tables::new();
    assert_eq!(t.rows.len(), 65536);
    assert_eq!(t.cols.len(), 65536);
    for x in 0..=65535u16 {
        let cells = u16_to_data(x);
        let left = naive_compact_left(cells);
        let mut rev = cells;
        rev.reverse();
        let mut right = naive_compact_left(rev);
        right.reverse();
        let e = &t.rows[x as usize];
        assert_eq!(e.left, data_to_u16(&left), "left of {:04x}", x);
        assert_eq!(e.right, data_to_u16(&right), "right of {:04x}", x);
        let free = right.iter().filter(|&&c| c == 0).count();
        assert_eq!(e.free, free, "free of {:04x}", x);
        let c = &t.cols[x as usize];
        assert_eq!(c.free, left.iter().filter(|&&v| v == 0).count());
        let spread = |l: [i32; 4]| -> u64 {
            (l[0] as u64) | ((l[1] as u64) << 16) | ((l[2] as u64) << 32) | ((l[3] as u64) << 48)
        };
        assert_eq!(c.up, spread(left));
        assert_eq!(c.down, spread(right));
    }
}

#[test]
fn line_codec_roundtrip() {
    for x in 0..=65535u16 {
        assert_eq!(data_to_u16(&u16_to_data(x)), x);
    }
}
