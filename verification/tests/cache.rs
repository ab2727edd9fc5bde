use chess_engine::chess_board::ChessBoard;
use chess_engine::pieces::{ChessMove, Position};
use chess_engine::transposition_table::TranspositionTable;
use chess_engine::zobrist::{RandomSource, ZobristTableStruct};

fn fresh(seed: u64) -> TranspositionTable {
    let mut source = RandomSource::seeded(seed);
    TranspositionTable::init_transpo_table(&mut source)
}

#[test]
fn store_then_lookup() {
    let mut cache = fresh(1);
    assert_eq!(cache.get_from_table(17), None);
    cache.insert_into_table(17, -345);
    assert_eq!(cache.get_from_table(17), Some(-345));
    cache.insert_into_table(u64::MAX, i32::MIN);
    cache.insert_into_table(0, i32::MAX);
    assert_eq!(cache.get_from_table(u64::MAX), Some(i32::MIN));
    assert_eq!(cache.get_from_table(0), Some(i32::MAX));
    assert_eq!(cache.get_from_table(17), Some(-345));
    assert_eq!(cache.get_from_table(18), None);
}

#[test]
fn store_overwrites() {
    let mut cache = fresh(2);
    cache.insert_into_table(5, 1);
    cache.insert_into_table(5, 2);
    assert_eq!(cache.get_from_table(5), Some(2));
    cache.insert_into_table(5, 0);
    assert_eq!(cache.get_from_table(5), Some(0));
}

#[test]
fn round_trip_by_fingerprint() {
    let mut cache = fresh(3);
    let mut board = ChessBoard::new();
    let start = cache.get_hash(&board);
    cache.insert_into_table(start, 77);
    board.update_board(ChessMove::OrdinaryMove {
        from: Position { row: 1, col: 4 },
        to: Position { row: 3, col: 4 },
    });
    let next = cache.get_hash(&board);
    assert_ne!(start, next);
    assert_eq!(cache.get_from_table(next), None);
    assert_eq!(cache.get_from_table(cache.get_hash(&ChessBoard::new())), Some(77));
}

#[test]
fn cache_uses_the_keys_of_its_source() {
    let board = ChessBoard::new();
    let mut source = RandomSource::seeded(9);
    let table = ZobristTableStruct::init_zobrist_table(&mut source);
    assert_eq!(fresh(9).get_hash(&board), table.zobrist_hash(&board));
    assert_ne!(fresh(9).get_hash(&board), fresh(10).get_hash(&board));
}

#[test]
fn a_cache_takes_the_next_keys_of_its_source() {
    let mut source = RandomSource::seeded(31);
    let keys: Vec<u64> = (0..769).map(|_| source.next_key()).collect();
    let after = source.next_key();
    let table = ZobristTableStruct::from_keys(&keys).unwrap();
    let mut source = RandomSource::seeded(31);
    let cache = TranspositionTable::init_transpo_table(&mut source);
    assert_eq!(source.next_key(), after);
    let mut board = ChessBoard::new();
    assert_eq!(cache.get_hash(&board), table.zobrist_hash(&board));
    board.change_turn();
    assert_eq!(cache.get_hash(&board), table.zobrist_hash(&board));
    assert_eq!(cache.get_from_table(cache.get_hash(&board)), None);
}
