//! The value types of the game: kinds, sides, squares, pieces, moves and
//! the status of a game.

use vstd::prelude::*;

verus! {

/// What a piece is.
#[derive(Copy, Clone, PartialEq, Eq, Debug, Structural)]
pub enum PieceType {
    Pawn,
    Knight,
    Bishop,
    Rook,
    Queen,
    King,
}

/// One of the two sides.
#[derive(Copy, Clone, PartialEq, Eq, Debug, Structural)]
pub enum Color {
    Black,
    White,
}

/// A square, by row (rank) and column (file), both counted from 0.
/// White starts on rows 0 and 1, Black on rows 6 and 7.
#[derive(Copy, Clone, PartialEq, Eq, Debug, Structural)]
pub struct Position {
    pub row: usize,
    pub col: usize,
}

/// A piece as it stands on the board.
#[derive(Copy, Clone, PartialEq, Eq, Debug, Structural)]
pub struct Piece {
    pub piece_type: PieceType,
    pub position: Position,
    pub color: Color,
    /// True from the piece's first move on; never reset.
    pub has_moved: bool,
}

/// A move. The three forms are matched exhaustively wherever a move is read.
#[derive(Copy, Clone, PartialEq, Eq, Debug, Structural)]
pub enum ChessMove {
    /// A piece goes from one square to another and takes what stands there.
    OrdinaryMove { from: Position, to: Position },
    /// The king and the rook of one corner change sides.
    Castle { king: Position, rook: Position },
    /// A pawn reaches the last row and becomes a piece of the given kind.
    Promotion { from: Position, to: Position, piece_type: PieceType },
}

/// The status of the game for the side that is to move.
#[derive(Copy, Clone, PartialEq, Eq, Debug, Structural)]
pub enum PartyState {
    /// The king is attacked and can be saved.
    Check,
    /// The king is attacked and no move saves it.
    CheckMate,
    /// The king is not attacked and there is no move (stalemate).
    Pat,
    /// The king is not attacked and there is a move.
    Normal,
}

impl Color {
    /// The other side.
    pub open spec fn opposite(self) -> Color {
        match self {
            Color::White => Color::Black,
            Color::Black => Color::White,
        }
    }

    /// The other side.
    pub fn enemy(self) -> (other: Color)
        ensures
            other == self.opposite(),
    {
        match self {
            Color::White => Color::Black,
            Color::Black => Color::White,
        }
    }

    /// The row on which this side's pieces start.
    pub open spec fn back_row(self) -> int {
        match self {
            Color::White => 0,
            Color::Black => 7,
        }
    }

    /// The row on which this side's pawns start.
    pub open spec fn pawn_row(self) -> int {
        match self {
            Color::White => 1,
            Color::Black => 6,
        }
    }

    /// The direction in which this side's pawns walk: one row up for White,
    /// one row down for Black.
    pub open spec fn forward(self) -> int {
        match self {
            Color::White => 1,
            Color::Black => -1,
        }
    }

    /// The row on which this side's pawns are promoted.
    pub open spec fn promotion_row(self) -> int {
        match self {
            Color::White => 7,
            Color::Black => 0,
        }
    }
}

impl Position {
    /// Whether the square lies on the 8 by 8 board.
    pub open spec fn on_board(self) -> bool {
        self.row < 8 && self.col < 8
    }
}

/// The square in row `r` and column `c`.
pub open spec fn square(r: int, c: int) -> Position {
    Position { row: r as usize, col: c as usize }
}

/// Whether row `r` and column `c` name a square of the board.
pub open spec fn in_range(r: int, c: int) -> bool {
    0 <= r < 8 && 0 <= c < 8
}

impl Piece {
    /// A piece that has not moved yet stands where the game began: a pawn on
    /// its side's pawn row, a king on its side's king square.
    pub open spec fn home_ok(self) -> bool {
        !self.has_moved ==> match self.piece_type {
            PieceType::Pawn => self.position.row == self.color.pawn_row(),
            PieceType::King => self.position == square(self.color.back_row(), 4),
            _ => true,
        }
    }
}

} // verus!
