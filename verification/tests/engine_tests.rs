use engine2048::engine::{set_up, Board, Data};

fn cell(d: u64, i: usize) -> u64 {
    (d >> (4 * i)) & 0xf
}

fn tile_sum(d: u64) -> u64 {
    (0..16).map(|i| match cell(d, i) {
        0 => 0u64,
        e => 1u64 << e,
    }).sum()
}

fn count_tiles(d: u64) -> usize {
    (0..16).filter(|&i| cell(d, i) != 0).count()
}

#[test]
fn engine_test() {
    let setup = set_up(123456);
    let board = Board::new(&setup.seeds);
    println!("{:?}", board.data);
    assert_eq!(board.turn, 2);
}

#[test]
fn opening_spawns() {
    // the empty board plus the two opening spawns (free 16, then 15)
    // holds exactly two tiles, each of exponent 1 or 2, at the
    // scan-order cells the seeds pick
    let setup = set_up(290797);
    let board = Board::new(&setup.seeds);
    let d = board.data.0;
    assert_eq!(count_tiles(d), 2);
    for i in 0..16 {
        let c = cell(d, i);
        assert!(c == 0 || c == 1 || c == 2);
    }
    // replay the canonical enumeration by hand
    let scan: Vec<usize> = (0..16).map(|j| (j % 4) * 4 + j / 4).collect();
    let e0 = &setup.seeds.entries[0];
    let p0 = scan[(e0.seed % 16) as usize];
    let v0 = if e0.seed & 0x10 == 0 { 1 } else { 2 };
    assert_eq!(cell(d, p0), v0);
    let e1 = &setup.seeds.entries[1];
    let mut empties: Vec<usize> = scan.iter().copied().filter(|&p| p != p0).collect();
    let p1 = empties.remove((e1.seed % 15) as usize);
    let v1 = if e1.seed & 0x10 == 0 { 1 } else { 2 };
    assert_eq!(cell(d, p1), v1);
}

#[test]
fn move_then_spawn_grows_total() {
    let setup = set_up(42);
    let board = Board::new(&setup.seeds);
    let before = tile_sum(board.data.0);
    let m = board.moves(&setup.tables);
    let candidates = [
        (m.down, m.free_ud),
        (m.right, m.free_rl),
        (m.up, m.free_ud),
        (m.left, m.free_rl),
    ];
    let mut tried = 0;
    for (w, free) in candidates {
        if w != board.data {
            assert_eq!(tile_sum(w.0), before, "a move keeps the total");
            let b2 = board.spawn(&setup.seeds, w, free);
            assert!(tile_sum(b2.data.0) > before, "the spawn adds a tile");
            assert_eq!(b2.turn, board.turn + 1);
            tried += 1;
        }
    }
    assert!(tried > 0);
}

#[test]
fn spawn_sequence_is_deterministic() {
    let s1 = set_up(777);
    let s2 = set_up(777);
    let mut b1 = Board::new(&s1.seeds);
    let mut b2 = Board::new(&s2.seeds);
    for _ in 0..50 {
        let (c1, n1) = b1.auto_ai(&s1);
        let (c2, n2) = b2.auto_ai(&s2);
        assert_eq!(c1, c2);
        match (n1, n2) {
            (Some(x1), Some(x2)) => {
                assert_eq!(x1.data, x2.data);
                assert_eq!(x1.turn, x2.turn);
                b1 = x1;
                b2 = x2;
            },
            (None, None) => break,
            _ => panic!("diverged"),
        }
    }
}

#[test]
fn moves_compact_each_row() {
    let setup = set_up(9);
    // row 0 holds [1,1,2,0], the rest is empty
    let d: u64 = 0x0211;
    let board = Board { turn: 0, data: Data(d) };
    let m = board.moves(&setup.tables);
    assert_eq!(m.left.0, 0x0022u64);
    assert_eq!(m.right.0, 0x2200u64);
    // columns: each tile slides to the top row / bottom row
    assert_eq!(m.up.0, 0x0211u64);
    assert_eq!(m.down.0, 0x0211u64 << 48);
    assert_eq!(m.free_rl, 14);
    assert_eq!(m.free_ud, 13);
}
