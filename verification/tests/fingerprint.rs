use chess_engine::chess_board::ChessBoard;
use chess_engine::pieces::{ChessMove, Position};
use chess_engine::zobrist::{RandomSource, ZobristTableStruct};

fn ordinary(from: (usize, usize), to: (usize, usize)) -> ChessMove {
    ChessMove::OrdinaryMove {
        from: Position { row: from.0, col: from.1 },
        to: Position { row: to.0, col: to.1 },
    }
}

fn play(board: &mut ChessBoard, moves: &[((usize, usize), (usize, usize))]) {
    for (from, to) in moves {
        board.update_board(ordinary(*from, *to));
    }
}

/// 769 keys that all differ.
fn spread_keys() -> Vec<u64> {
    (0..769u64).map(|i| (i + 1).wrapping_mul(0x9E37_79B9_7F4A_7C15)).collect()
}

fn seeded_table(seed: u64) -> ZobristTableStruct {
    let mut source = RandomSource::seeded(seed);
    ZobristTableStruct::init_zobrist_table(&mut source)
}

#[test]
fn fingerprint_is_the_xor_of_the_keys() {
    let table = ZobristTableStruct::from_keys(&spread_keys()).unwrap();
    let mut board = ChessBoard::new();
    assert_eq!(table.zobrist_hash(&board), 7687650876633251248);
    // the turn key alone
    board.change_turn();
    assert_eq!(table.zobrist_hash(&board), 3320458640867935909);
    assert_eq!(7687650876633251248u64 ^ 3320458640867935909u64, spread_keys()[768]);
    // after e2-e4, Black to move
    let mut board = ChessBoard::new();
    play(&mut board, &[((1, 4), (3, 4))]);
    assert_eq!(table.zobrist_hash(&board), 11092390806121240165);
}

#[test]
fn a_table_needs_all_its_keys() {
    let mut keys = spread_keys();
    assert!(ZobristTableStruct::from_keys(&keys).is_some());
    keys.pop();
    assert!(ZobristTableStruct::from_keys(&keys).is_none());
    keys.push(1);
    keys.push(2);
    assert!(ZobristTableStruct::from_keys(&keys).is_none());
    assert!(ZobristTableStruct::from_keys(&Vec::new()).is_none());
}

#[test]
fn transposition_gives_the_same_fingerprint() {
    let table = seeded_table(11);
    let mut one = ChessBoard::new();
    play(&mut one, &[((0, 6), (2, 5)), ((7, 6), (5, 5)), ((0, 1), (2, 2)), ((7, 1), (5, 2))]);
    let mut two = ChessBoard::new();
    play(&mut two, &[((0, 1), (2, 2)), ((7, 1), (5, 2)), ((0, 6), (2, 5)), ((7, 6), (5, 5))]);
    assert_eq!(one.get_board(), two.get_board());
    assert_ne!(one.last_move(), two.last_move());
    assert_eq!(table.zobrist_hash(&one), table.zobrist_hash(&two));
    assert_ne!(table.zobrist_hash(&one), table.zobrist_hash(&ChessBoard::new()));
}

#[test]
fn going_and_coming_back_gives_the_same_fingerprint() {
    // the pieces stand as at the start, though four of them have moved
    let table = seeded_table(5);
    let mut board = ChessBoard::new();
    play(&mut board, &[((0, 6), (2, 5)), ((7, 6), (5, 5)), ((2, 5), (0, 6)), ((5, 5), (7, 6))]);
    assert_ne!(board.get_board(), ChessBoard::new().get_board());
    assert_eq!(table.zobrist_hash(&board), table.zobrist_hash(&ChessBoard::new()));
}

#[test]
fn moving_a_piece_changes_the_fingerprint() {
    let table = seeded_table(3);
    let start = ChessBoard::new();
    let first = table.zobrist_hash(&start);
    let mut seen = vec![first];
    // every piece of the white back row and pawn row to some empty square,
    // the turn left as it was
    for col in 0..8 {
        for row in 0..2 {
            for target in [(3, col), (4, 7 - col)] {
                let mut board = ChessBoard::new();
                board.make_a_move(&ordinary((row, col), target));
                board.change_turn();
                let hash = table.zobrist_hash(&board);
                assert!(!seen.contains(&hash));
                seen.push(hash);
            }
        }
    }
    assert_eq!(seen.len(), 33);
}

#[test]
fn the_side_to_move_enters_the_fingerprint() {
    let table = seeded_table(8);
    let mut board = ChessBoard::new();
    let white = table.zobrist_hash(&board);
    board.change_turn();
    let black = table.zobrist_hash(&board);
    assert_ne!(white, black);
    board.change_turn();
    assert_eq!(table.zobrist_hash(&board), white);
}

#[test]
fn the_last_square_and_the_last_identity_enter() {
    let table = seeded_table(21);
    // the black king (the last of the twelve identities) moves
    let mut board = ChessBoard::new();
    let before = table.zobrist_hash(&board);
    board.make_a_move(&ordinary((7, 4), (4, 4)));
    board.change_turn();
    assert_ne!(table.zobrist_hash(&board), before);
    // the rook on h8, the last square, leaves
    let mut board = ChessBoard::new();
    board.make_a_move(&ordinary((7, 7), (4, 7)));
    board.change_turn();
    assert_ne!(table.zobrist_hash(&board), before);
}

#[test]
fn kinds_and_sides_have_keys_of_their_own() {
    // a white bishop and a black rook on the same square differ
    let table = ZobristTableStruct::from_keys(&spread_keys()).unwrap();
    let mut one = ChessBoard::new();
    play(&mut one, &[((0, 2), (3, 3)), ((7, 0), (4, 0))]);
    let mut two = ChessBoard::new();
    play(&mut two, &[((0, 2), (4, 0)), ((7, 0), (3, 3))]);
    assert_ne!(table.zobrist_hash(&one), table.zobrist_hash(&two));
}

#[test]
fn equal_keys_hide_a_move() {
    // with one key for everything a piece on another square counts the same
    let table = ZobristTableStruct::from_keys(&vec![7u64; 769]).unwrap();
    let start = ChessBoard::new();
    let mut board = ChessBoard::new();
    board.make_a_move(&ordinary((1, 4), (3, 4)));
    board.change_turn();
    assert_ne!(board.get_board(), start.get_board());
    assert_eq!(table.zobrist_hash(&board), table.zobrist_hash(&start));
}

#[test]
fn a_seed_fixes_the_table() {
    let board = ChessBoard::new();
    assert_eq!(seeded_table(42).zobrist_hash(&board), seeded_table(42).zobrist_hash(&board));
    assert_ne!(seeded_table(42).zobrist_hash(&board), seeded_table(43).zobrist_hash(&board));
    let mut source = RandomSource::seeded(42);
    let first = source.next_key();
    let second = source.next_key();
    assert_ne!(first, second);
    assert_eq!(RandomSource::seeded(42).next_key(), first);
    assert_ne!(first, 42);
}

#[test]
fn unseeded_tables_differ() {
    let board = ChessBoard::new();
    let mut one = RandomSource::unseeded();
    let mut two = RandomSource::unseeded();
    let a = ZobristTableStruct::init_zobrist_table(&mut one).zobrist_hash(&board);
    let b = ZobristTableStruct::init_zobrist_table(&mut two).zobrist_hash(&board);
    assert_ne!(a, b);
}

#[test]
fn a_move_changes_the_fingerprint_by_its_keys() {
    let keys = spread_keys();
    let table = ZobristTableStruct::from_keys(&keys).unwrap();
    let key = |row: usize, col: usize, identity: usize| keys[(row * 8 + col) * 12 + identity];
    let start = ChessBoard::new();
    let before = table.zobrist_hash(&start);
    // e2-e4: the white pawn (identity 8) leaves e2 and stands on e4, and
    // the turn passes to Black
    let mut board = ChessBoard::new();
    play(&mut board, &[((1, 4), (3, 4))]);
    assert_eq!(table.zobrist_hash(&board), before ^ key(1, 4, 8) ^ key(3, 4, 8) ^ keys[768]);
    // the white queen (identity 6) takes the black queen (identity 7)
    let mut board = ChessBoard::new();
    play(&mut board, &[((0, 3), (7, 3))]);
    assert_eq!(
        table.zobrist_hash(&board),
        before ^ key(0, 3, 6) ^ key(7, 3, 7) ^ key(7, 3, 6) ^ keys[768]
    );
    // a black knight (identity 5) moves with the turn left to White
    let mut board = ChessBoard::new();
    board.make_a_move(&ordinary((7, 1), (5, 2)));
    board.change_turn();
    assert_eq!(table.zobrist_hash(&board), before ^ key(7, 1, 5) ^ key(5, 2, 5));
}

#[test]
fn a_source_gives_its_keys_in_order() {
    // a second source of the same seed gives the same keys, one by one
    let mut one = RandomSource::seeded(19);
    let mut two = RandomSource::seeded(19);
    let first: Vec<u64> = (0..10).map(|_| one.next_key()).collect();
    for key in first.iter() {
        assert_eq!(two.next_key(), *key);
    }
    // the keys are not the seed handed back, nor one key over and over
    assert!(first.iter().all(|k| *k != 19));
    for i in 0..10 {
        for j in 0..i {
            assert_ne!(first[i], first[j]);
        }
    }
    // another seed, other keys
    let mut other = RandomSource::seeded(20);
    assert_ne!(other.next_key(), first[0]);
}

#[test]
fn a_table_holds_the_next_keys_of_its_source() {
    let mut source = RandomSource::seeded(5);
    let keys: Vec<u64> = (0..769).map(|_| source.next_key()).collect();
    let after = source.next_key();
    let by_hand = ZobristTableStruct::from_keys(&keys).unwrap();
    let mut source = RandomSource::seeded(5);
    let drawn = ZobristTableStruct::init_zobrist_table(&mut source);
    // the source goes on after the 769 keys of the table
    assert_eq!(source.next_key(), after);
    let mut board = ChessBoard::new();
    for step in 0..20 {
        assert_eq!(drawn.zobrist_hash(&board), by_hand.zobrist_hash(&board));
        let moves = board.get_party_moves();
        board.update_board(moves[(step * 3 + 1) % moves.len()]);
    }
    // a second table from the same source holds the keys that follow
    let second = ZobristTableStruct::init_zobrist_table(&mut source);
    assert_ne!(second.zobrist_hash(&board), drawn.zobrist_hash(&board));
}
