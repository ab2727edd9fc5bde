use chess_engine::notation::{parse_chess_position, piece_symbol};
use chess_engine::pieces::{Color, Piece, PieceType, Position};

#[test]
fn squares_are_read() {
    assert_eq!(parse_chess_position("e2"), Some(Position { row: 1, col: 4 }));
    assert_eq!(parse_chess_position("e4"), Some(Position { row: 3, col: 4 }));
    assert_eq!(parse_chess_position("a1"), Some(Position { row: 0, col: 0 }));
    assert_eq!(parse_chess_position("h8"), Some(Position { row: 7, col: 7 }));
    assert_eq!(parse_chess_position("a8"), Some(Position { row: 7, col: 0 }));
    assert_eq!(parse_chess_position("h1"), Some(Position { row: 0, col: 7 }));
    // what follows the digit is not read
    assert_eq!(parse_chess_position("c3x"), Some(Position { row: 2, col: 2 }));
}

#[test]
fn missing_signs_have_defaults() {
    assert_eq!(parse_chess_position(""), Some(Position { row: 0, col: 0 }));
    assert_eq!(parse_chess_position("d"), Some(Position { row: 0, col: 3 }));
}

#[test]
fn other_texts_name_no_square() {
    assert_eq!(parse_chess_position("i1"), None);
    assert_eq!(parse_chess_position("a9"), None);
    assert_eq!(parse_chess_position("a0"), None);
    assert_eq!(parse_chess_position("E2"), None);
    assert_eq!(parse_chess_position("2e"), None);
    assert_eq!(parse_chess_position("`1"), None);
    assert_eq!(parse_chess_position("é2"), None);
    assert_eq!(parse_chess_position(" e2"), None);
}

#[test]
fn pieces_have_letters() {
    let at = Position { row: 0, col: 0 };
    let cases = [
        (PieceType::Pawn, 'P', 'p'),
        (PieceType::Knight, 'N', 'n'),
        (PieceType::Bishop, 'B', 'b'),
        (PieceType::Rook, 'R', 'r'),
        (PieceType::Queen, 'Q', 'q'),
        (PieceType::King, 'K', 'k'),
    ];
    for (piece_type, white, black) in cases {
        let piece = Piece { piece_type, position: at, color: Color::White, has_moved: false };
        assert_eq!(piece_symbol(&Some(piece)), white);
        let piece = Piece { piece_type, position: at, color: Color::Black, has_moved: true };
        assert_eq!(piece_symbol(&Some(piece)), black);
    }
    assert_eq!(piece_symbol(&None), '.');
}
