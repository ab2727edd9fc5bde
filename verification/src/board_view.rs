//! The mathematical model of a board: what stands where, the two lists of
//! occupied squares, and what a move does to them.

use vstd::prelude::*;
use crate::pieces::{ChessMove, Color, PartyState, Piece, PieceType, Position, square};

verus! {

/// A board as the contracts see it.
pub struct BoardView {
    /// Eight rows of eight squares.
    pub grid: Seq<Seq<Option<Piece>>>,
    /// The squares that hold a black piece, in the order in which the pieces
    /// came to stand there.
    pub black_positions: Seq<Position>,
    /// The same for White.
    pub white_positions: Seq<Position>,
    /// The move that led to this board, if any.
    pub last_move: Option<ChessMove>,
    /// The status that the last update found.
    pub party_state: PartyState,
    /// The side that is to move.
    pub turn: Color,
}

/// The list without its entry `p`. Where `p` occurs once, that entry goes
/// and the others keep their order.
pub open spec fn without(list: Seq<Position>, p: Position) -> Seq<Position> {
    list.remove(list.index_of(p))
}

impl BoardView {
    /// What stands on square `p`.
    pub open spec fn at(self, p: Position) -> Option<Piece> {
        self.grid[p.row as int][p.col as int]
    }

    /// Whether a piece of side `c` stands on `p`.
    pub open spec fn holds(self, p: Position, c: Color) -> bool {
        self.at(p) matches Some(pc) && pc.color == c
    }

    /// Whether the king of side `c` stands on `p`.
    pub open spec fn king_at(self, p: Position, c: Color) -> bool {
        self.at(p) matches Some(pc) && pc.color == c && pc.piece_type == PieceType::King
    }

    /// The list of the squares of side `c`.
    pub open spec fn positions(self, c: Color) -> Seq<Position> {
        match c {
            Color::White => self.white_positions,
            Color::Black => self.black_positions,
        }
    }

    /// The pieces of side `c`, in the order of its list.
    pub open spec fn pieces(self, c: Color) -> Seq<Piece> {
        Seq::new(self.positions(c).len(), |i: int| self.at(self.positions(c)[i]).unwrap())
    }

    /// The list of side `c` names each square of that side once, and no
    /// other; a side has at most sixteen pieces.
    pub open spec fn list_ok(self, c: Color) -> bool {
        &&& self.positions(c).len() <= 16
        &&& self.positions(c).no_duplicates()
        &&& forall|i: int|
            0 <= i < self.positions(c).len() ==> (#[trigger] self.positions(c)[i]).on_board()
                && self.holds(self.positions(c)[i], c)
        &&& forall|p: Position|
            p.on_board() && #[trigger] self.holds(p, c) ==> self.positions(c).contains(p)
    }

    /// Side `c` has its king on `k` and nowhere else.
    pub open spec fn sole_king(self, k: Position, c: Color) -> bool {
        &&& k.on_board()
        &&& self.king_at(k, c)
        &&& forall|q: Position| q.on_board() && #[trigger] self.king_at(q, c) ==> q == k
    }

    /// The invariant of a board: the grid is 8 by 8, each piece knows its
    /// square, a piece that has not moved stands at home, the two lists
    /// agree with the grid, and each side has exactly one king and at most
    /// sixteen pieces.
    pub open spec fn wf(self) -> bool {
        &&& self.grid.len() == 8
        &&& forall|r: int| 0 <= r < 8 ==> (#[trigger] self.grid[r]).len() == 8
        &&& forall|p: Position|
            p.on_board() ==> ((#[trigger] self.at(p)) matches Some(pc) ==> pc.position == p
                && pc.home_ok())
        &&& self.list_ok(Color::White)
        &&& self.list_ok(Color::Black)
        &&& exists|k: Position| self.sole_king(k, Color::White)
        &&& exists|k: Position| self.sole_king(k, Color::Black)
    }

    /// The square of the king of side `c`.
    pub open spec fn king_square(self, c: Color) -> Position {
        choose|k: Position| self.sole_king(k, c)
    }

    /// The board with `x` on square `p`.
    pub open spec fn put(self, p: Position, x: Option<Piece>) -> BoardView {
        BoardView {
            grid: self.grid.update(
                p.row as int,
                self.grid[p.row as int].update(p.col as int, x),
            ),
            ..self
        }
    }

    /// The board with the list of side `c` replaced.
    pub open spec fn with_positions(self, c: Color, list: Seq<Position>) -> BoardView {
        match c {
            Color::White => BoardView { white_positions: list, ..self },
            Color::Black => BoardView { black_positions: list, ..self },
        }
    }

    /// The board with square `p` struck from the list of the side that holds
    /// it, if any does. The grid is left as it is.
    pub open spec fn cleared(self, p: Position) -> BoardView {
        match self.at(p) {
            Some(victim) => self.with_positions(
                victim.color,
                without(self.positions(victim.color), p),
            ),
            None => self,
        }
    }

    /// The board after the piece on `from` went to `to` and took what stood
    /// there. The piece has then moved and is of kind `kind`; its square is
    /// the last of its side's list.
    pub open spec fn relocate(self, from: Position, to: Position, kind: PieceType) -> BoardView {
        let piece = self.at(from).unwrap();
        let moved = Piece { piece_type: kind, position: to, color: piece.color, has_moved: true };
        let cleared = self.cleared(to);
        cleared.with_positions(
            piece.color,
            without(cleared.positions(piece.color), from).push(to),
        ).put(to, Some(moved)).put(from, None)
    }

    /// Where the rook of a castle lands: two columns towards the centre from
    /// the right corner, three from any other column.
    pub open spec fn castle_rook_target(rook: Position) -> Position {
        if rook.col == 7 {
            square(rook.row as int, 5)
        } else {
            square(rook.row as int, rook.col + 3)
        }
    }

    /// Where the king of a castle lands: two columns towards the rook.
    pub open spec fn castle_king_target(king: Position, rook: Position) -> Position {
        if rook.col == 7 {
            square(king.row as int, king.col + 2)
        } else {
            square(king.row as int, king.col - 2)
        }
    }

    /// Whether `m` can be carried out: its squares lie on the board, its
    /// pieces are there, no king is taken or made, and a castle finds the two
    /// landing squares empty.
    pub open spec fn applicable(self, m: ChessMove) -> bool {
        match m {
            ChessMove::OrdinaryMove { from, to } => {
                &&& from.on_board() && to.on_board() && from != to
                &&& self.at(from) is Some
                &&& !(self.at(to) matches Some(victim) && victim.piece_type == PieceType::King)
            },
            ChessMove::Promotion { from, to, piece_type } => {
                &&& from.on_board() && to.on_board() && from != to
                &&& self.at(from) matches Some(pc) && pc.piece_type != PieceType::King
                &&& piece_type != PieceType::King
                &&& !(self.at(to) matches Some(victim) && victim.piece_type == PieceType::King)
            },
            ChessMove::Castle { king, rook } => {
                let rook_to = Self::castle_rook_target(rook);
                let king_to = Self::castle_king_target(king, rook);
                &&& king.on_board() && rook.on_board() && king != rook
                &&& king.row == rook.row
                &&& rook.col == 7 ==> king.col + 2 < 8
                &&& rook.col != 7 ==> king.col >= 2 && rook.col + 3 < 8
                &&& self.at(king) is Some && self.at(rook) is Some
                &&& rook_to != king_to
                &&& self.at(rook_to) is None && self.at(king_to) is None
            },
        }
    }

    /// The pieces after `m`, before the turn passes.
    pub open spec fn moved(self, m: ChessMove) -> BoardView {
        match m {
            ChessMove::OrdinaryMove { from, to } => self.relocate(
                from,
                to,
                self.at(from).unwrap().piece_type,
            ),
            ChessMove::Promotion { from, to, piece_type } => self.relocate(from, to, piece_type),
            ChessMove::Castle { king, rook } => {
                let rooked = self.relocate(
                    rook,
                    Self::castle_rook_target(rook),
                    self.at(rook).unwrap().piece_type,
                );
                rooked.relocate(
                    king,
                    Self::castle_king_target(king, rook),
                    self.at(king).unwrap().piece_type,
                )
            },
        }
    }

    /// The board with the other side to move.
    pub open spec fn flipped(self) -> BoardView {
        BoardView { turn: self.turn.opposite(), ..self }
    }

    /// The board after `m`: the pieces have moved, `m` is remembered as the
    /// last move, and the turn has passed. The status is left as it was.
    pub open spec fn apply(self, m: ChessMove) -> BoardView {
        BoardView { last_move: Some(m), ..self.moved(m) }.flipped()
    }
}

/// The kind of the piece that starts in column `c` of a back row.
pub open spec fn initial_kind(c: int) -> PieceType {
    if c == 0 || c == 7 {
        PieceType::Rook
    } else if c == 1 || c == 6 {
        PieceType::Knight
    } else if c == 2 || c == 5 {
        PieceType::Bishop
    } else if c == 3 {
        PieceType::Queen
    } else {
        PieceType::King
    }
}

/// What stands on row `r`, column `c` when a game begins.
pub open spec fn initial_piece(r: int, c: int) -> Option<Piece> {
    if r == 0 || r == 7 {
        Some(
            Piece {
                piece_type: initial_kind(c),
                position: square(r, c),
                color: if r == 0 {
                    Color::White
                } else {
                    Color::Black
                },
                has_moved: false,
            },
        )
    } else if r == 1 || r == 6 {
        Some(
            Piece {
                piece_type: PieceType::Pawn,
                position: square(r, c),
                color: if r == 1 {
                    Color::White
                } else {
                    Color::Black
                },
                has_moved: false,
            },
        )
    } else {
        None
    }
}

/// The first `n` squares of the two rows that start at row `first`, row by
/// row.
pub open spec fn two_rows(first: int, n: int) -> Seq<Position> {
    Seq::new(n as nat, |i: int| square(first + i / 8, i % 8))
}

impl BoardView {
    /// The board on which a game begins: White on rows 0 and 1, Black on
    /// rows 6 and 7, each list row by row, White to move.
    pub open spec fn initial() -> BoardView {
        BoardView {
            grid: Seq::new(8, |r: int| Seq::new(8, |c: int| initial_piece(r, c))),
            black_positions: two_rows(6, 16),
            white_positions: two_rows(0, 16),
            last_move: None,
            party_state: PartyState::Normal,
            turn: Color::White,
        }
    }
}

} // verus!
