use chess_engine::chess_board::ChessBoard;
use chess_engine::evaluation::{eval_function, eval_function_old};
use chess_engine::minimax::Minimax;
use chess_engine::pieces::{ChessMove, Color, PartyState, Position};

fn ordinary(from: (usize, usize), to: (usize, usize)) -> ChessMove {
    ChessMove::OrdinaryMove {
        from: Position { row: from.0, col: from.1 },
        to: Position { row: to.0, col: to.1 },
    }
}

fn play(board: &mut ChessBoard, moves: &[((usize, usize), (usize, usize))]) {
    for (from, to) in moves {
        board.update_board(ordinary(*from, *to));
    }
}

fn searcher(color: Color) -> Minimax {
    Minimax { depth: 0, max_depth: 3, color, alpha: i32::MIN, beta: i32::MAX }
}

#[test]
fn initial_position_is_level() {
    assert_eq!(eval_function(&searcher(Color::White), ChessBoard::new()), 0);
    assert_eq!(eval_function(&searcher(Color::Black), ChessBoard::new()), 0);
}

#[test]
fn square_values_count() {
    // after e2-e4 the pawn stands on a square worth 23 in place of 68
    let mut board = ChessBoard::new();
    play(&mut board, &[((1, 4), (3, 4))]);
    assert_eq!(eval_function(&searcher(Color::White), board.clone()), -45);
    assert_eq!(eval_function(&searcher(Color::Black), board), 45);
}

#[test]
fn score_does_not_depend_on_the_side_to_move() {
    let mut board = ChessBoard::new();
    play(&mut board, &[((1, 4), (3, 4))]);
    let before = eval_function(&searcher(Color::White), board.clone());
    board.change_turn();
    assert_eq!(eval_function(&searcher(Color::White), board), before);
}

#[test]
fn material_and_phase_blend() {
    // the white queen takes the black one: phase 20, middle game 1035,
    // end game 893: (1035 * 20 + 893 * 4) / 24 = 1011
    let mut board = ChessBoard::new();
    play(&mut board, &[((0, 3), (7, 3))]);
    assert_eq!(eval_function(&searcher(Color::White), board.clone()), 1011);
    assert_eq!(eval_function(&searcher(Color::Black), board.clone()), -1011);
    // the black king takes back: phase 16, (-41 * 16 + 7 * 8) / 24 = -25
    play(&mut board, &[((7, 4), (7, 3))]);
    assert_eq!(eval_function(&searcher(Color::White), board.clone()), -25);
    assert_eq!(eval_function(&searcher(Color::Black), board), 25);
}

#[test]
fn division_rounds_towards_zero() {
    // (-145 * 16 - 77 * 8) / 24 = -2936 / 24 = -122 and a third
    let mut board = ChessBoard::new();
    play(&mut board, &[((0, 3), (7, 3)), ((7, 4), (7, 3)), ((1, 0), (2, 0))]);
    assert_eq!(eval_function(&searcher(Color::White), board.clone()), -122);
    assert_eq!(eval_function(&searcher(Color::Black), board.clone()), 122);
    // a white knight takes a black one: phase 15,
    // (171 * 15 + 153 * 9) / 24 = 3942 / 24 = 164 and a quarter
    play(&mut board, &[((0, 1), (7, 1))]);
    assert_eq!(eval_function(&searcher(Color::White), board.clone()), 164);
    assert_eq!(eval_function(&searcher(Color::Black), board), -164);
}

#[test]
fn last_row_and_last_column_count() {
    // a rook that leaves h8 (row 7, column 7) changes the score
    let mut board = ChessBoard::new();
    let before = eval_function(&searcher(Color::White), board.clone());
    play(&mut board, &[((7, 7), (4, 7))]);
    let after = eval_function(&searcher(Color::White), board);
    // for Black h8 reads row 0 of the table (43, 5) and h5 row 3 (-20, 2)
    assert_eq!(before, 0);
    assert_eq!(after, 63);
}

#[test]
fn plain_score_counts_material() {
    let mut board = ChessBoard::new();
    assert_eq!(eval_function_old(&searcher(Color::White), board.clone()), 0);
    // White takes the black queen; Black is to move
    play(&mut board, &[((0, 3), (7, 3))]);
    assert_eq!(board.get_party_state(), PartyState::Check);
    // Black is to move: its material is set against that of White
    assert_eq!(eval_function_old(&searcher(Color::Black), board.clone()), -900);
    // and for White, its own material against that of the side not to
    // move, which is White
    assert_eq!(eval_function_old(&searcher(Color::White), board), 0);
}

#[test]
fn plain_score_of_a_mate() {
    let mut board = ChessBoard::new();
    play(
        &mut board,
        &[((1, 5), (2, 5)), ((6, 4), (4, 4)), ((1, 6), (3, 6)), ((7, 3), (3, 7))],
    );
    assert_eq!(board.get_party_state(), PartyState::CheckMate);
    assert_eq!(board.get_turn(), Color::White);
    assert_eq!(eval_function_old(&searcher(Color::White), board.clone()), i32::MIN);
    assert_eq!(eval_function_old(&searcher(Color::Black), board), i32::MAX);
}

#[test]
fn plain_score_of_a_stalemate() {
    let mut board = ChessBoard::new();
    let mut script: Vec<((usize, usize), (usize, usize))> = Vec::new();
    let mut queen = (0, 3);
    let mut victims: Vec<(usize, usize)> = (0..8).map(|c| (6, c)).collect();
    victims.extend([(7, 0), (7, 1), (7, 2), (7, 3), (7, 5), (7, 6), (7, 7)]);
    for v in victims {
        script.push((queen, v));
        queen = v;
    }
    let mut king = (7, 4);
    let mut victims: Vec<(usize, usize)> = (0..8).map(|c| (1, c)).collect();
    victims.extend([(0, 0), (0, 1), (0, 2), (0, 5), (0, 6), (0, 7)]);
    for v in victims {
        script.push((king, v));
        king = v;
    }
    script.push((queen, (4, 4)));
    script.push(((4, 4), (5, 6)));
    script.push((king, (7, 7)));
    script.push(((0, 4), (6, 5)));
    play(&mut board, &script);
    assert_eq!(board.get_party_state(), PartyState::Pat);
    assert_eq!(eval_function_old(&searcher(Color::White), board.clone()), 10);
    assert_eq!(eval_function_old(&searcher(Color::Black), board), 10);
}
