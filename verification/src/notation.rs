//! The written form of squares and pieces: a square as a letter and a
//! digit, a piece as one letter.

use vstd::prelude::*;
use crate::pieces::{Color, Piece, PieceType, Position};

verus! {

/// The square that a text names by a column letter from `a` to `h` and a
/// row digit from `1` to `8`. A missing letter counts as `a`, a missing
/// digit as `1`, and what follows the digit is not read. Any other text
/// names no square.
pub open spec fn position_of(text: Seq<char>) -> Option<Position> {
    let file = if text.len() > 0 {
        text[0]
    } else {
        'a'
    };
    let rank = if text.len() > 1 {
        text[1]
    } else {
        '1'
    };
    if 'a' <= file <= 'h' && '1' <= rank <= '8' {
        Some(
            Position {
                row: (rank as int - '1' as int) as usize,
                col: (file as int - 'a' as int) as usize,
            },
        )
    } else {
        None
    }
}

/// Reads a square from its written form, such as `e2`.
pub fn parse_chess_position(pos: &str) -> (parsed: Option<Position>)
    ensures
        parsed == position_of(pos@),
        parsed matches Some(p) ==> p.on_board(),
{
    let len = pos.unicode_len();
    let file: char = if len > 0 { pos.get_char(0) } else { 'a' };
    let rank: char = if len > 1 { pos.get_char(1) } else { '1' };
    if 'a' <= file && file <= 'h' && '1' <= rank && rank <= '8' {
        let col = (file as u32 - 'a' as u32) as usize;
        let row = (rank as u32 - '1' as u32) as usize;
        Some(Position { row, col })
    } else {
        None
    }
}

/// The letter of a kind of piece, as White writes it.
pub open spec fn kind_letter(kind: PieceType) -> char {
    match kind {
        PieceType::Pawn => 'P',
        PieceType::Knight => 'N',
        PieceType::Bishop => 'B',
        PieceType::Rook => 'R',
        PieceType::Queen => 'Q',
        PieceType::King => 'K',
    }
}

/// The sign that stands for a square when a board is drawn: a dot for an
/// empty square, the letter of the piece otherwise, a capital for White and
/// a small letter for Black.
pub open spec fn symbol_of(square: Option<Piece>) -> char {
    match square {
        None => '.',
        Some(piece) => match piece.color {
            Color::White => kind_letter(piece.piece_type),
            Color::Black => ((kind_letter(piece.piece_type) as int) + 32) as char,
        },
    }
}

/// The sign that stands for a square when a board is drawn.
pub fn piece_symbol(square: &Option<Piece>) -> (symbol: char)
    ensures
        symbol == symbol_of(*square),
{
    match square {
        None => '.',
        Some(piece) => match (piece.piece_type, piece.color) {
            (PieceType::Pawn, Color::White) => 'P',
            (PieceType::Pawn, Color::Black) => 'p',
            (PieceType::Knight, Color::White) => 'N',
            (PieceType::Knight, Color::Black) => 'n',
            (PieceType::Bishop, Color::White) => 'B',
            (PieceType::Bishop, Color::Black) => 'b',
            (PieceType::Rook, Color::White) => 'R',
            (PieceType::Rook, Color::Black) => 'r',
            (PieceType::Queen, Color::White) => 'Q',
            (PieceType::Queen, Color::Black) => 'q',
            (PieceType::King, Color::White) => 'K',
            (PieceType::King, Color::Black) => 'k',
        },
    }
}

} // verus!
