use engine2048::snapshot::Board;
use engine2048::table::Tables;

fn cell(d: u64, i: usize) -> u64 {
    (d >> (4 * i)) & 0xf
}

#[test]
fn test_board() {
    let tables = Tables::new();
    let board = Board::new(290797);
    println!("{:?}", board);
    let moves = board.moves(&tables);
    println!("{:?}", moves.down);
    assert_eq!((0..16).filter(|&i| cell(board.data, i) != 0).count(), 2);
}

#[test]
fn wire_roundtrip() {
    let board = Board::new(290797);
    let bytes = board.dump();
    assert_eq!(bytes.len(), 16);
    assert_eq!(Board::load(&bytes), board);
    // the layout is the board word little-endian, then the seed
    for i in 0..8 {
        assert_eq!(bytes[i], ((board.data >> (8 * i)) & 0xff) as u8);
        assert_eq!(bytes[8 + i], ((board.seed >> (8 * i)) & 0xff) as u8);
    }
}

#[test]
fn cells_roundtrip() {
    let board = Board::new(123456);
    let cells = board.to_vec();
    assert_eq!(cells.len(), 16);
    let back = Board::from_vec(&cells, board.seed);
    assert_eq!(back, board);
    for i in 0..16 {
        assert_eq!(cells[i] as u64, cell(board.data, i));
    }
}

#[test]
fn moves_spawn_only_legal_candidates() {
    let tables = Tables::new();
    let board = Board::new(11111);
    let m = board.moves(&tables);
    for b in [m.up, m.down, m.left, m.right] {
        if b.data == board.data {
            assert_eq!(b.seed, board.seed, "an illegal move keeps the seed");
        } else {
            assert_eq!(
                b.seed,
                board.seed * board.seed % 50515093,
                "a legal move spawned and advanced the seed"
            );
        }
    }
}
