use chess_engine::chess_board::ChessBoard;
use chess_engine::pieces::{ChessMove, Color, PartyState, Piece, PieceType, Position};

fn sq(row: usize, col: usize) -> Position {
    Position { row, col }
}

fn ordinary(from: (usize, usize), to: (usize, usize)) -> ChessMove {
    ChessMove::OrdinaryMove { from: sq(from.0, from.1), to: sq(to.0, to.1) }
}

fn castle(king: (usize, usize), rook: (usize, usize)) -> ChessMove {
    ChessMove::Castle { king: sq(king.0, king.1), rook: sq(rook.0, rook.1) }
}

/// Plays moves one after the other, whoever is to move, and returns the
/// legal moves after the last one.
fn play(board: &mut ChessBoard, moves: &[((usize, usize), (usize, usize))]) -> Vec<ChessMove> {
    let mut legal = board.get_party_moves();
    for (from, to) in moves {
        legal = board.update_board(ordinary(*from, *to));
    }
    legal
}

fn piece_at(board: &ChessBoard, row: usize, col: usize) -> Option<Piece> {
    board.get_board()[row][col]
}

fn count_kings(board: &ChessBoard, color: Color) -> usize {
    let mut n = 0;
    for row in board.get_board().iter() {
        for square in row.iter() {
            if let Some(piece) = square {
                if piece.piece_type == PieceType::King && piece.color == color {
                    n += 1;
                }
            }
        }
    }
    n
}

/// Black king h8, white queen g6, white king f7, Black to move.
fn stalemate_board() -> ChessBoard {
    let mut board = ChessBoard::new();
    let mut script: Vec<((usize, usize), (usize, usize))> = Vec::new();
    // the white queen takes every black piece but the king
    let mut queen = (0, 3);
    let mut victims: Vec<(usize, usize)> = (0..8).map(|c| (6, c)).collect();
    victims.extend([(7, 0), (7, 1), (7, 2), (7, 3), (7, 5), (7, 6), (7, 7)]);
    for v in victims {
        script.push((queen, v));
        queen = v;
    }
    // the black king takes every white piece but king and queen
    let mut king = (7, 4);
    let mut victims: Vec<(usize, usize)> = (0..8).map(|c| (1, c)).collect();
    victims.extend([(0, 0), (0, 1), (0, 2), (0, 5), (0, 6), (0, 7)]);
    for v in victims {
        script.push((king, v));
        king = v;
    }
    script.push((queen, (4, 4)));
    script.push(((4, 4), (5, 6)));
    script.push((king, (7, 7)));
    script.push(((0, 4), (6, 5)));
    play(&mut board, &script);
    board
}

#[test]
fn initial_position_has_twenty_moves() {
    let board = ChessBoard::new();
    assert_eq!(board.get_turn(), Color::White);
    assert_eq!(board.get_party_state(), PartyState::Normal);
    let moves = board.get_party_moves();
    assert_eq!(moves.len(), 20);
    assert!(!board.is_king_in_check());
    // pawns first, in the order of the list: a2 gives a3 then a4
    assert_eq!(board.get_all_moves(), moves);
    assert!(moves.contains(&ordinary((1, 0), (2, 0))));
    assert!(moves.contains(&ordinary((1, 0), (3, 0))));
    assert!(moves.contains(&ordinary((0, 1), (2, 0))));
    assert!(moves.contains(&ordinary((0, 1), (2, 2))));
    assert!(moves.contains(&ordinary((0, 6), (2, 5))));
    assert!(moves.contains(&ordinary((0, 6), (2, 7))));
}

#[test]
fn black_has_twenty_replies() {
    let mut board = ChessBoard::new();
    let replies = board.update_board(ordinary((1, 4), (3, 4)));
    assert_eq!(replies.len(), 20);
    assert_eq!(board.get_turn(), Color::Black);
    assert_eq!(board.get_party_state(), PartyState::Normal);
    assert_eq!(board.last_move(), Some(ordinary((1, 4), (3, 4))));
}

#[test]
fn fools_mate_is_checkmate() {
    let mut board = ChessBoard::new();
    // 1. f3 e5 2. g4 Qh4#
    let m1 = board.update_board(ordinary((1, 5), (2, 5)));
    assert!(m1.contains(&ordinary((6, 4), (4, 4))));
    let m2 = board.update_board(ordinary((6, 4), (4, 4)));
    assert!(m2.contains(&ordinary((1, 6), (3, 6))));
    let m3 = board.update_board(ordinary((1, 6), (3, 6)));
    assert!(m3.contains(&ordinary((7, 3), (3, 7))));
    let m4 = board.update_board(ordinary((7, 3), (3, 7)));
    assert_eq!(m4.len(), 0);
    assert_eq!(board.get_party_state(), PartyState::CheckMate);
    assert_eq!(board.get_turn(), Color::White);
    assert!(board.is_king_in_check());
    assert_eq!(board.get_party_moves().len(), 0);
    assert_eq!(board.find_safe_moves().len(), 0);
}

#[test]
fn stalemate_is_not_checkmate() {
    let board = stalemate_board();
    assert_eq!(board.get_turn(), Color::Black);
    assert_eq!(piece_at(&board, 7, 7).unwrap().piece_type, PieceType::King);
    assert_eq!(piece_at(&board, 5, 6).unwrap().piece_type, PieceType::Queen);
    assert_eq!(piece_at(&board, 6, 5).unwrap().piece_type, PieceType::King);
    assert_eq!(board.get_party_state(), PartyState::Pat);
    assert!(!board.is_king_in_check());
    assert_eq!(board.get_party_moves().len(), 0);
}

#[test]
fn check_is_reported_with_its_escapes() {
    let mut board = ChessBoard::new();
    // 1. e4 f5 2. Qh5+ : the only escape is g6.
    board.update_board(ordinary((1, 4), (3, 4)));
    board.update_board(ordinary((6, 5), (4, 5)));
    let moves = board.update_board(ordinary((0, 3), (4, 7)));
    assert_eq!(board.get_party_state(), PartyState::Check);
    assert_eq!(moves, vec![ordinary((6, 6), (5, 6))]);
    // once the check is met the status is normal again
    let replies = board.update_board(ordinary((6, 6), (5, 6)));
    assert_eq!(board.get_party_state(), PartyState::Normal);
    assert!(!replies.is_empty());
}

#[test]
fn every_board_of_a_game_has_one_king_per_side() {
    let mut board = ChessBoard::new();
    let mut steps = 0;
    loop {
        assert_eq!(count_kings(&board, Color::White), 1);
        assert_eq!(count_kings(&board, Color::Black), 1);
        let king = board.get_king();
        assert_eq!(king.piece_type, PieceType::King);
        assert_eq!(king.color, board.get_turn());
        assert_eq!(piece_at(&board, king.position.row, king.position.col), Some(king));
        let moves = board.get_party_moves();
        if moves.is_empty() || steps == 60 {
            break;
        }
        // a different move each time, always a legal one
        let pick = moves[(steps * 7 + 3) % moves.len()];
        board.update_board(pick);
        steps += 1;
    }
    assert!(steps > 10);
}

#[test]
fn turn_passes_once_per_move() {
    let mut board = ChessBoard::new();
    let mut expected = Color::White;
    for step in 0..12 {
        assert_eq!(board.get_turn(), expected);
        let moves = board.get_party_moves();
        board.update_board(moves[step % moves.len()]);
        expected = if expected == Color::White { Color::Black } else { Color::White };
    }
    board.change_turn();
    assert_eq!(board.get_turn(), Color::Black);
    board.change_turn();
    assert_eq!(board.get_turn(), Color::White);
}

#[test]
fn a_piece_that_moved_stays_moved() {
    let mut board = ChessBoard::new();
    assert!(!piece_at(&board, 0, 1).unwrap().has_moved);
    play(&mut board, &[((0, 1), (2, 2)), ((7, 1), (5, 2)), ((2, 2), (0, 1)), ((5, 2), (7, 1))]);
    let knight = piece_at(&board, 0, 1).unwrap();
    assert_eq!(knight.piece_type, PieceType::Knight);
    assert_eq!(knight.position, sq(0, 1));
    assert!(knight.has_moved);
    assert!(piece_at(&board, 7, 1).unwrap().has_moved);
    assert!(!piece_at(&board, 0, 6).unwrap().has_moved);
}

#[test]
fn lists_follow_the_grid() {
    let mut board = ChessBoard::new();
    let whites = board.get_friendly_pieces_by_color(Color::White);
    assert_eq!(whites.len(), 16);
    assert_eq!(whites[0].position, sq(0, 0));
    assert_eq!(whites[15].position, sq(1, 7));
    let blacks = board.get_friendly_pieces_by_color(Color::Black);
    assert_eq!(blacks.len(), 16);
    assert_eq!(blacks[0].position, sq(6, 0));
    // White to move: the other side is Black, whatever colour is named
    assert_eq!(board.get_ennemy_pieces_by_color(Color::White), blacks);
    assert_eq!(board.get_ennemy_pieces_by_color(Color::Black), blacks);
    // e4, then d5, then the pawn takes
    play(&mut board, &[((1, 4), (3, 4)), ((6, 3), (4, 3)), ((3, 4), (4, 3))]);
    let whites = board.get_friendly_pieces_by_color(Color::White);
    let blacks = board.get_friendly_pieces_by_color(Color::Black);
    assert_eq!(whites.len(), 16);
    assert_eq!(blacks.len(), 15);
    // the piece that moved is the last of its list
    assert_eq!(whites[15].position, sq(4, 3));
    assert_eq!(whites[15].piece_type, PieceType::Pawn);
    assert!(blacks.iter().all(|p| p.position != sq(4, 3)));
    for piece in whites.iter().chain(blacks.iter()) {
        assert_eq!(piece_at(&board, piece.position.row, piece.position.col), Some(*piece));
    }
    // Black to move now: the other side is White
    assert_eq!(board.get_ennemy_pieces_by_color(Color::White), whites);
}

#[test]
fn rays_stop_at_the_first_piece() {
    let mut board = ChessBoard::new();
    // a white rook on d4 (row 3, column 3)
    play(&mut board, &[((0, 0), (3, 3))]);
    let rook = piece_at(&board, 3, 3).unwrap();
    let moves = board.get_other_moves(rook, false);
    let expected = vec![
        // to the right, to the left, up, down
        ordinary((3, 3), (3, 4)),
        ordinary((3, 3), (3, 5)),
        ordinary((3, 3), (3, 6)),
        ordinary((3, 3), (3, 7)),
        ordinary((3, 3), (3, 2)),
        ordinary((3, 3), (3, 1)),
        ordinary((3, 3), (3, 0)),
        ordinary((3, 3), (4, 3)),
        ordinary((3, 3), (5, 3)),
        ordinary((3, 3), (6, 3)),
        ordinary((3, 3), (2, 3)),
    ];
    assert_eq!(moves, expected);
    // in attack mode nothing: no ray ends on the black king
    assert_eq!(board.get_other_moves(rook, true), vec![]);
}

#[test]
fn attack_mode_sees_the_king_only() {
    let mut board = ChessBoard::new();
    // a white rook on e7 takes the pawn before the black king
    play(&mut board, &[((0, 0), (6, 4))]);
    let rook = piece_at(&board, 6, 4).unwrap();
    assert_eq!(board.get_other_moves(rook, true), vec![ordinary((6, 4), (7, 4))]);
    // in normal mode the king is no target
    assert!(!board.get_other_moves(rook, false).contains(&ordinary((6, 4), (7, 4))));
    assert!(board.is_king_in_check());
    assert_eq!(board.get_party_state(), PartyState::Check);
}

#[test]
fn a_king_moves_to_all_eight_neighbours() {
    let mut board = ChessBoard::new();
    play(&mut board, &[((0, 4), (3, 3))]);
    let king = piece_at(&board, 3, 3).unwrap();
    let moves = board.get_other_moves(king, false);
    let expected = vec![
        ordinary((3, 3), (4, 3)),
        ordinary((3, 3), (4, 4)),
        ordinary((3, 3), (3, 4)),
        ordinary((3, 3), (2, 4)),
        ordinary((3, 3), (2, 3)),
        ordinary((3, 3), (2, 2)),
        ordinary((3, 3), (3, 2)),
        ordinary((3, 3), (4, 2)),
    ];
    assert_eq!(moves, expected);
}

#[test]
fn a_king_attacks_the_other_king() {
    let mut board = ChessBoard::new();
    // the white king goes to e6: the black pawns d7, e7, f7 stand between
    // it and nothing, and the black king on e8 is two rows away
    play(&mut board, &[((0, 4), (5, 4))]);
    assert!(!board.is_king_in_check());
    // the white king takes e7 and now stands beside the black king
    play(&mut board, &[((7, 1), (5, 2)), ((5, 4), (6, 4))]);
    assert_eq!(board.get_turn(), Color::Black);
    assert!(board.is_king_in_check());
}

#[test]
fn pawn_steps() {
    let mut board = ChessBoard::new();
    let pawn = piece_at(&board, 1, 2).unwrap();
    assert_eq!(
        board.get_other_moves(pawn, false),
        vec![ordinary((1, 2), (2, 2)), ordinary((1, 2), (3, 2))]
    );
    assert_eq!(board.get_other_moves(pawn, true), vec![]);
    // a black knight on c4 bars the second step, one on c3 bars both
    play(&mut board, &[((7, 1), (3, 2))]);
    assert_eq!(board.get_other_moves(pawn, false), vec![ordinary((1, 2), (2, 2))]);
    play(&mut board, &[((3, 2), (2, 2))]);
    assert_eq!(board.get_other_moves(pawn, false), vec![]);
    // the pawns beside it may take the knight
    let left = piece_at(&board, 1, 1).unwrap();
    assert_eq!(
        board.get_other_moves(left, false),
        vec![ordinary((1, 1), (2, 1)), ordinary((1, 1), (3, 1)), ordinary((1, 1), (2, 2))]
    );
    // a pawn that has moved steps one row only
    play(&mut board, &[((1, 7), (2, 7))]);
    let moved = piece_at(&board, 2, 7).unwrap();
    assert!(moved.has_moved);
    assert_eq!(board.get_other_moves(moved, false), vec![ordinary((2, 7), (3, 7))]);
    // black pawns walk down
    let black = piece_at(&board, 6, 0).unwrap();
    assert_eq!(
        board.get_other_moves(black, false),
        vec![ordinary((6, 0), (5, 0)), ordinary((6, 0), (4, 0))]
    );
}

#[test]
fn pawn_takes_past_a_double_step() {
    let mut board = ChessBoard::new();
    // a white pawn comes to e5; Black answers d7-d5 beside it
    play(&mut board, &[((1, 4), (4, 4)), ((6, 3), (4, 3))]);
    let pawn = piece_at(&board, 4, 4).unwrap();
    assert_eq!(
        board.get_other_moves(pawn, false),
        vec![ordinary((4, 4), (5, 4)), ordinary((4, 4), (5, 3))]
    );
    // not in attack mode
    assert_eq!(board.get_other_moves(pawn, true), vec![]);
    // the move takes the pawn to d6; the pawn it passed stays
    board.update_board(ordinary((4, 4), (5, 3)));
    assert_eq!(piece_at(&board, 5, 3).unwrap().color, Color::White);
    assert_eq!(piece_at(&board, 4, 3).unwrap().color, Color::Black);
    assert!(piece_at(&board, 4, 4).is_none());
}

#[test]
fn no_taking_past_a_single_step() {
    let mut board = ChessBoard::new();
    // the black pawn reaches d5 in two moves of one row
    play(&mut board, &[((1, 4), (4, 4)), ((6, 3), (5, 3)), ((1, 0), (2, 0)), ((5, 3), (4, 3))]);
    let pawn = piece_at(&board, 4, 4).unwrap();
    assert_eq!(board.get_other_moves(pawn, false), vec![ordinary((4, 4), (5, 4))]);
}

#[test]
fn promotion_gives_four_moves_and_changes_the_kind() {
    let mut board = ChessBoard::new();
    // a white pawn takes on a7: a8 is held by the rook, b8 by the knight
    play(&mut board, &[((1, 0), (6, 0)), ((6, 7), (5, 7))]);
    let pawn = piece_at(&board, 6, 0).unwrap();
    let from = sq(6, 0);
    let to = sq(7, 1);
    let expected = vec![
        ChessMove::Promotion { from, to, piece_type: PieceType::Queen },
        ChessMove::Promotion { from, to, piece_type: PieceType::Rook },
        ChessMove::Promotion { from, to, piece_type: PieceType::Bishop },
        ChessMove::Promotion { from, to, piece_type: PieceType::Knight },
    ];
    assert_eq!(board.get_other_moves(pawn, false), expected);
    assert!(board.get_party_moves().contains(&expected[2]));
    board.update_board(expected[3]);
    let knight = piece_at(&board, 7, 1).unwrap();
    assert_eq!(knight.piece_type, PieceType::Knight);
    assert_eq!(knight.color, Color::White);
    assert_eq!(knight.position, to);
    assert!(knight.has_moved);
    assert!(piece_at(&board, 6, 0).is_none());
    // the pawn on a7 and the knight on b8 were taken
    assert_eq!(board.get_friendly_pieces_by_color(Color::Black).len(), 14);
    assert_eq!(board.get_friendly_pieces_by_color(Color::White).len(), 16);
}

#[test]
fn promotion_straight_ahead() {
    let mut board = ChessBoard::new();
    // the white queen clears a7 and a8, then a white pawn comes to a7
    play(&mut board, &[((0, 3), (6, 0)), ((6, 0), (7, 0)), ((7, 0), (3, 3)), ((1, 0), (6, 0))]);
    assert_eq!(board.get_turn(), Color::White);
    let pawn = piece_at(&board, 6, 0).unwrap();
    let moves = board.get_other_moves(pawn, false);
    assert_eq!(moves.len(), 8);
    assert_eq!(
        moves[0],
        ChessMove::Promotion { from: sq(6, 0), to: sq(7, 0), piece_type: PieceType::Queen }
    );
    assert_eq!(
        moves[4],
        ChessMove::Promotion { from: sq(6, 0), to: sq(7, 1), piece_type: PieceType::Queen }
    );
}

#[test]
fn castle_short() {
    let mut board = ChessBoard::new();
    // knight and bishop leave g1 and f1
    let legal = play(
        &mut board,
        &[((0, 6), (2, 5)), ((6, 0), (5, 0)), ((0, 5), (3, 2)), ((6, 1), (5, 1))],
    );
    let short = castle((0, 4), (0, 7));
    assert!(legal.contains(&short));
    assert!(!legal.contains(&castle((0, 4), (0, 0))));
    let king = board.get_king();
    assert_eq!(board.get_castle_moves(king), vec![short]);
    board.update_board(short);
    let king = piece_at(&board, 0, 6).unwrap();
    let rook = piece_at(&board, 0, 5).unwrap();
    assert_eq!(king.piece_type, PieceType::King);
    assert_eq!(rook.piece_type, PieceType::Rook);
    assert!(king.has_moved && rook.has_moved);
    assert_eq!(king.position, sq(0, 6));
    assert_eq!(rook.position, sq(0, 5));
    assert!(piece_at(&board, 0, 4).is_none());
    assert!(piece_at(&board, 0, 7).is_none());
    assert_eq!(board.get_turn(), Color::Black);
    assert_eq!(board.last_move(), Some(short));
    let whites = board.get_friendly_pieces_by_color(Color::White);
    assert_eq!(whites.len(), 16);
    assert_eq!(whites[14].position, sq(0, 5));
    assert_eq!(whites[15].position, sq(0, 6));
}

#[test]
fn castle_long() {
    let mut board = ChessBoard::new();
    // knight, bishop and queen leave b1, c1 and d1
    let legal = play(
        &mut board,
        &[
            ((0, 1), (2, 2)),
            ((6, 0), (5, 0)),
            ((0, 2), (3, 5)),
            ((6, 1), (5, 1)),
            ((0, 3), (2, 3)),
            ((6, 2), (5, 2)),
        ],
    );
    let long = castle((0, 4), (0, 0));
    assert!(legal.contains(&long));
    board.update_board(long);
    assert_eq!(piece_at(&board, 0, 2).unwrap().piece_type, PieceType::King);
    assert_eq!(piece_at(&board, 0, 3).unwrap().piece_type, PieceType::Rook);
    assert!(piece_at(&board, 0, 0).is_none());
    assert!(piece_at(&board, 0, 4).is_none());
}

#[test]
fn black_castles_too() {
    let mut board = ChessBoard::new();
    let legal = play(
        &mut board,
        &[((1, 0), (2, 0)), ((7, 6), (5, 5)), ((1, 1), (2, 1)), ((7, 5), (4, 2)), ((1, 2), (2, 2))],
    );
    let short = castle((7, 4), (7, 7));
    assert_eq!(board.get_turn(), Color::Black);
    assert!(legal.contains(&short));
    board.update_board(short);
    assert_eq!(piece_at(&board, 7, 6).unwrap().piece_type, PieceType::King);
    assert_eq!(piece_at(&board, 7, 5).unwrap().piece_type, PieceType::Rook);
}

#[test]
fn no_castle_over_an_occupied_square() {
    let mut board = ChessBoard::new();
    // only the knight has left: the bishop still stands on f1
    let legal = play(&mut board, &[((0, 6), (2, 5)), ((6, 0), (5, 0))]);
    assert!(!legal.contains(&castle((0, 4), (0, 7))));
    // only the bishop has left: the knight still stands on g1
    let mut board = ChessBoard::new();
    let legal = play(&mut board, &[((0, 5), (3, 2)), ((6, 0), (5, 0))]);
    assert!(!legal.contains(&castle((0, 4), (0, 7))));
    let king = board.get_king();
    assert_eq!(board.get_castle_moves(king), vec![]);
    // from the start nothing is free
    let board = ChessBoard::new();
    assert!(board.get_party_moves().iter().all(|m| !matches!(m, ChessMove::Castle { .. })));
}

#[test]
fn no_castle_once_the_king_has_moved() {
    let mut board = ChessBoard::new();
    let legal = play(
        &mut board,
        &[
            ((0, 6), (2, 5)),
            ((6, 0), (5, 0)),
            ((0, 5), (3, 2)),
            ((6, 1), (5, 1)),
            ((0, 4), (0, 5)),
            ((6, 2), (5, 2)),
            ((0, 5), (0, 4)),
            ((6, 3), (5, 3)),
        ],
    );
    assert_eq!(board.get_turn(), Color::White);
    assert!(piece_at(&board, 0, 4).unwrap().has_moved);
    assert!(!legal.contains(&castle((0, 4), (0, 7))));
}

#[test]
fn no_castle_once_the_rook_has_moved() {
    let mut board = ChessBoard::new();
    let legal = play(
        &mut board,
        &[
            ((0, 6), (2, 5)),
            ((6, 0), (5, 0)),
            ((0, 5), (3, 2)),
            ((6, 1), (5, 1)),
            ((0, 7), (0, 6)),
            ((6, 2), (5, 2)),
            ((0, 6), (0, 7)),
            ((6, 3), (5, 3)),
        ],
    );
    assert_eq!(board.get_turn(), Color::White);
    assert!(piece_at(&board, 0, 7).unwrap().has_moved);
    assert!(!piece_at(&board, 0, 4).unwrap().has_moved);
    assert!(!legal.contains(&castle((0, 4), (0, 7))));
}

#[test]
fn no_castle_onto_an_attacked_square() {
    let mut board = ChessBoard::new();
    // f1 and g1 are free, the g-pawn is gone and a black rook looks down
    // the g-file at g1
    let legal = play(
        &mut board,
        &[
            ((0, 6), (2, 5)),
            ((7, 0), (4, 6)),
            ((0, 5), (3, 2)),
            ((4, 6), (1, 6)),
            ((1, 0), (2, 0)),
            ((1, 6), (4, 6)),
        ],
    );
    assert_eq!(board.get_turn(), Color::White);
    assert!(!board.is_king_in_check());
    let king = board.get_king();
    assert_eq!(board.get_castle_moves(king), vec![castle((0, 4), (0, 7))]);
    assert!(!legal.contains(&castle((0, 4), (0, 7))));
}

#[test]
fn castle_across_an_attacked_square_is_offered() {
    let mut board = ChessBoard::new();
    // f1 and g1 are free, the f-pawn is gone and a black rook looks down
    // the f-file at f1, which the king only crosses
    let legal = play(
        &mut board,
        &[
            ((0, 6), (2, 7)),
            ((7, 0), (4, 5)),
            ((0, 5), (3, 2)),
            ((4, 5), (1, 5)),
            ((1, 0), (2, 0)),
            ((1, 5), (4, 5)),
        ],
    );
    assert_eq!(board.get_turn(), Color::White);
    assert!(!board.is_king_in_check());
    assert!(legal.contains(&castle((0, 4), (0, 7))));
}

#[test]
fn a_pinned_piece_is_not_held_back() {
    let mut board = ChessBoard::new();
    // the e-pawns are gone, a black rook stands on e5 and a white knight
    // on e2 shields the king
    let legal = play(
        &mut board,
        &[
            ((1, 4), (6, 4)),
            ((7, 0), (6, 4)),
            ((0, 6), (1, 4)),
            ((6, 4), (4, 4)),
        ],
    );
    assert_eq!(board.get_turn(), Color::White);
    assert!(!board.is_king_in_check());
    // the knight may leave the file although the king is then attacked
    assert!(legal.contains(&ordinary((1, 4), (3, 5))));
    board.update_board(ordinary((1, 4), (3, 5)));
    board.change_turn();
    assert!(board.is_king_in_check());
}

#[test]
fn escapes_are_ordinary_moves_only() {
    let mut board = ChessBoard::new();
    // White: a pawn on a7 that could promote by taking b8. Black gives
    // check with a rook on e2 (the e-pawn is gone).
    play(
        &mut board,
        &[((1, 0), (6, 0)), ((7, 7), (3, 7)), ((1, 4), (2, 3)), ((3, 7), (1, 4))],
    );
    assert_eq!(board.get_turn(), Color::White);
    assert_eq!(board.get_party_state(), PartyState::Check);
    let escapes = board.get_party_moves();
    assert!(!escapes.is_empty());
    assert!(escapes.iter().all(|m| matches!(m, ChessMove::OrdinaryMove { .. })));
    // every escape ends the check
    for m in escapes.iter() {
        let mut after = board.clone();
        after.make_a_move(m);
        after.change_turn();
        assert!(!after.is_king_in_check());
    }
    // the rook can be taken by king, queen, bishop and knight
    assert!(escapes.contains(&ordinary((0, 4), (1, 4))));
    assert!(escapes.contains(&ordinary((0, 3), (1, 4))));
    assert!(escapes.contains(&ordinary((0, 5), (1, 4))));
    assert!(escapes.contains(&ordinary((0, 6), (1, 4))));
    assert_eq!(escapes.len(), 4);
}

#[test]
fn a_copy_is_a_board_of_its_own() {
    let mut board = ChessBoard::new();
    let copy = board.clone();
    board.update_board(ordinary((1, 4), (3, 4)));
    assert_eq!(copy.get_turn(), Color::White);
    assert_eq!(copy.get_board(), ChessBoard::new().get_board());
    assert_eq!(copy.last_move(), None);
    assert!(piece_at(&board, 3, 4).is_some());
    assert!(piece_at(&copy, 3, 4).is_none());
    assert_eq!(copy.get_party_moves().len(), 20);
}

#[test]
fn board_snapshot_shows_the_pieces() {
    let board = ChessBoard::new();
    let grid = board.get_board();
    assert_eq!(grid.len(), 8);
    for row in grid.iter() {
        assert_eq!(row.len(), 8);
    }
    let king = grid[0][4].unwrap();
    assert_eq!(king.piece_type, PieceType::King);
    assert_eq!(king.color, Color::White);
    assert_eq!(king.position, sq(0, 4));
    assert!(!king.has_moved);
    assert!(grid[3][3].is_none());
    assert_eq!(grid[7][3].unwrap().piece_type, PieceType::Queen);
    assert_eq!(grid[6][0].unwrap().color, Color::Black);
    let back = [
        PieceType::Rook,
        PieceType::Knight,
        PieceType::Bishop,
        PieceType::Queen,
        PieceType::King,
        PieceType::Bishop,
        PieceType::Knight,
        PieceType::Rook,
    ];
    for c in 0..8 {
        assert_eq!(grid[0][c].unwrap().piece_type, back[c]);
        assert_eq!(grid[7][c].unwrap().piece_type, back[c]);
        assert_eq!(grid[1][c].unwrap().piece_type, PieceType::Pawn);
        assert_eq!(grid[6][c].unwrap().piece_type, PieceType::Pawn);
        assert_eq!(grid[0][c].unwrap().color, Color::White);
        assert_eq!(grid[7][c].unwrap().color, Color::Black);
        for r in 2..6 {
            assert!(grid[r][c].is_none());
        }
    }
}

#[test]
fn legal_moves_can_be_played() {
    let mut board = ChessBoard::new();
    for step in 0..30 {
        let moves = board.get_party_moves();
        if moves.is_empty() {
            break;
        }
        for m in moves.iter() {
            assert!(board.can_apply(m));
        }
        board.update_board(moves[(step * 5 + 1) % moves.len()]);
    }
}

#[test]
fn moves_that_cannot_be_played() {
    let board = ChessBoard::new();
    // from an empty square
    assert!(!board.can_apply(&ordinary((3, 3), (4, 3))));
    // to the square it starts from
    assert!(!board.can_apply(&ordinary((1, 3), (1, 3))));
    // off the board
    assert!(!board.can_apply(&ordinary((1, 3), (8, 3))));
    assert!(!board.can_apply(&ordinary((1, 8), (2, 3))));
    assert!(!board.can_apply(&ordinary((usize::MAX, 0), (2, 3))));
    // onto a king
    assert!(!board.can_apply(&ordinary((0, 3), (7, 4))));
    assert!(!board.can_apply(&ordinary((0, 3), (0, 4))));
    // onto anything else, whoever is to move and whatever the rule of the piece
    assert!(board.can_apply(&ordinary((0, 3), (7, 3))));
    assert!(board.can_apply(&ordinary((6, 0), (1, 0))));
    assert!(board.can_apply(&ordinary((0, 0), (0, 1))));
    // a castle over occupied squares
    assert!(!board.can_apply(&castle((0, 4), (0, 7))));
    assert!(!board.can_apply(&castle((0, 4), (0, 0))));
    assert!(!board.can_apply(&castle((0, 4), (1, 7))));
    assert!(!board.can_apply(&castle((0, 4), (0, 4))));
    assert!(!board.can_apply(&castle((0, 4), (0, 9))));
    // no piece becomes a king, and a king becomes nothing else
    let from = sq(1, 0);
    let to = sq(2, 0);
    assert!(board.can_apply(&ChessMove::Promotion { from, to, piece_type: PieceType::Queen }));
    assert!(!board.can_apply(&ChessMove::Promotion { from, to, piece_type: PieceType::King }));
    assert!(!board.can_apply(&ChessMove::Promotion {
        from: sq(0, 4),
        to: sq(2, 4),
        piece_type: PieceType::Queen
    }));
    assert!(!board.can_apply(&ChessMove::Promotion {
        from: sq(3, 4),
        to: sq(4, 4),
        piece_type: PieceType::Queen
    }));
}

#[test]
fn a_castle_can_be_played_once_the_squares_are_free() {
    let mut board = ChessBoard::new();
    play(&mut board, &[((0, 6), (2, 5)), ((6, 0), (5, 0)), ((0, 5), (3, 2)), ((6, 1), (5, 1))]);
    assert!(board.can_apply(&castle((0, 4), (0, 7))));
    assert!(!board.can_apply(&castle((0, 4), (0, 0))));
}

#[test]
fn making_a_move_leaves_the_status() {
    let mut board = ChessBoard::new();
    // the queen gives check, but only an update looks for it
    board.make_a_move(&ordinary((0, 3), (6, 4)));
    assert_eq!(board.get_party_state(), PartyState::Normal);
    assert_eq!(board.get_turn(), Color::Black);
    assert_eq!(board.last_move(), Some(ordinary((0, 3), (6, 4))));
    assert!(board.is_king_in_check());
}

/// The number of ways to play `depth` legal moves from a board.
fn count_games(board: &ChessBoard, depth: usize) -> usize {
    if depth == 0 {
        return 1;
    }
    let mut total = 0;
    for m in board.get_party_moves() {
        let mut next = board.clone();
        next.update_board(m);
        total += count_games(&next, depth - 1);
    }
    total
}

#[test]
fn games_of_two_and_three_moves() {
    let board = ChessBoard::new();
    assert_eq!(count_games(&board, 1), 20);
    assert_eq!(count_games(&board, 2), 400);
    assert_eq!(count_games(&board, 3), 8902);
}
