//! The move generator: the moves that the rule of movement of one piece
//! allows on a board, computed square by square.

use vstd::prelude::*;
use crate::pieces::{in_range, square, ChessMove, Color, Piece, PieceType, Position};
use crate::chess_board::ChessBoard;
use crate::move_rules::{arrival, directions, promotions, reach};

verus! {

/// The steps of a piece of kind `kind`, in the order in which its moves are
/// listed.
fn steps_of(kind: PieceType) -> (steps: Vec<(i32, i32)>)
    ensures
        steps@ == directions(kind),
        forall|i: int|
            0 <= i < steps.len() ==> -2 <= (#[trigger] steps[i]).0 <= 2 && -2 <= steps[i].1 <= 2,
{
    let steps = match kind {
        PieceType::Pawn => Vec::new(),
        PieceType::Rook => vec![(0i32, 1i32), (0i32, -1i32), (1i32, 0i32), (-1i32, 0i32)],
        PieceType::Bishop => vec![(1i32, 1i32), (1i32, -1i32), (-1i32, -1i32), (-1i32, 1i32)],
        PieceType::Knight => vec![
            (2i32, 1i32),
            (2i32, -1i32),
            (-2i32, 1i32),
            (-2i32, -1i32),
            (1i32, 2i32),
            (1i32, -2i32),
            (-1i32, 2i32),
            (-1i32, -2i32),
        ],
        PieceType::Queen => vec![
            (0i32, 1i32),
            (0i32, -1i32),
            (1i32, 0i32),
            (-1i32, 0i32),
            (1i32, 1i32),
            (1i32, -1i32),
            (-1i32, -1i32),
            (-1i32, 1i32),
        ],
        PieceType::King => vec![
            (1i32, 0i32),
            (1i32, 1i32),
            (0i32, 1i32),
            (-1i32, 1i32),
            (-1i32, 0i32),
            (-1i32, -1i32),
            (0i32, -1i32),
            (1i32, -1i32),
        ],
    };
    assert(steps@ =~= directions(kind));
    steps
}

/// How far a piece of kind `kind` goes in one direction.
fn reach_of(kind: PieceType) -> (steps: u8)
    ensures
        steps == reach(kind),
{
    match kind {
        PieceType::Pawn => 0,
        PieceType::Knight | PieceType::King => 1,
        _ => 7,
    }
}

/// Whether row `r` and column `c` name a square of the board.
fn is_move_possible(r: i32, c: i32) -> (possible: bool)
    ensures
        possible == in_range(r as int, c as int),
{
    0 <= r && r < 8 && 0 <= c && c < 8
}

impl ChessBoard {
    /// What stands on `position`.
    pub(crate) fn is_any_piece(&self, position: &Position) -> (piece: Option<Piece>)
        requires
            self.wf(),
            position.on_board(),
        ensures
            piece == self@.at(*position),
    {
        self.get_piece_from_pos(position)
    }

    /// The four promotions of a pawn that goes from `from` to `to`.
    pub(crate) fn generate_promotion_moves(&self, from: Position, to: Position) -> (moves: Vec<
        ChessMove,
    >)
        ensures
            moves@ == promotions(from, to),
    {
        let moves = vec![
            ChessMove::Promotion { from, to, piece_type: PieceType::Queen },
            ChessMove::Promotion { from, to, piece_type: PieceType::Rook },
            ChessMove::Promotion { from, to, piece_type: PieceType::Bishop },
            ChessMove::Promotion { from, to, piece_type: PieceType::Knight },
        ];
        assert(moves@ =~= promotions(from, to));
        moves
    }

    /// Adds the moves by which a pawn of side `color` arrives on `to`.
    fn push_arrival(&self, from: Position, to: Position, color: Color, moves: &mut Vec<ChessMove>)
        requires
            to.on_board(),
        ensures
            final(moves)@ == old(moves)@ + arrival(from, to, color),
    {
        let promotion_row: usize = match color {
            Color::Black => 0,
            Color::White => 7,
        };
        if to.row == promotion_row {
            let mut more = self.generate_promotion_moves(from, to);
            moves.append(&mut more);
        } else {
            moves.push(ChessMove::OrdinaryMove { from, to });
            assert(moves@ =~= old(moves)@ + arrival(from, to, color));
        }
    }

    /// Adds the moves of `piece` along the direction (`dr`, `dc`).
    fn push_ray(
        &self,
        piece: Piece,
        dr: i32,
        dc: i32,
        reach: u8,
        attack: bool,
        moves: &mut Vec<ChessMove>,
    )
        requires
            self.wf(),
            piece.position.on_board(),
            -2 <= dr <= 2,
            -2 <= dc <= 2,
            reach <= 7,
        ensures
            final(moves)@ == old(moves)@ + self@.ray(
                piece,
                piece.position.row as int,
                piece.position.col as int,
                dr as int,
                dc as int,
                reach as nat,
                attack,
            ),
    {
        let ghost goal = old(moves)@ + self@.ray(
            piece,
            piece.position.row as int,
            piece.position.col as int,
            dr as int,
            dc as int,
            reach as nat,
            attack,
        );
        let mut x: i32 = piece.position.row as i32;
        let mut y: i32 = piece.position.col as i32;
        let mut left: u8 = reach;
        loop
            invariant_except_break
                self.wf(),
                -2 <= dr <= 2,
                -2 <= dc <= 2,
                0 <= x < 8,
                0 <= y < 8,
                left <= 7,
                moves@ + self@.ray(
                    piece,
                    x as int,
                    y as int,
                    dr as int,
                    dc as int,
                    left as nat,
                    attack,
                ) == goal,
            ensures
                moves@ == goal,
            decreases left,
        {
            let ghost rest = self@.ray(
                piece,
                x as int,
                y as int,
                dr as int,
                dc as int,
                left as nat,
                attack,
            );
            if left == 0 || !is_move_possible(x + dr, y + dc) {
                assert(moves@ + rest =~= moves@);
                break ;
            }
            let position = Position { row: (x + dr) as usize, col: (y + dc) as usize };
            assert(position == square(x + dr, y + dc));
            let step = ChessMove::OrdinaryMove { from: piece.position, to: position };
            let ghost before = moves@;
            match self.is_any_piece(&position) {
                Some(target) => {
                    if target.color != piece.color && (target.piece_type == PieceType::King)
                        == attack {
                        moves.push(step);
                    }
                    assert(moves@ =~= before + rest);
                    break ;
                },
                None => {
                    if !attack {
                        moves.push(step);
                    }
                },
            }
            x = x + dr;
            y = y + dc;
            left = left - 1;
            assert(moves@ + self@.ray(
                piece,
                x as int,
                y as int,
                dr as int,
                dc as int,
                left as nat,
                attack,
            ) =~= before + rest);
        }
    }

    /// Adds the moves of a pawn straight ahead.
    fn push_pawn_pushes(&self, piece: Piece, moves: &mut Vec<ChessMove>)
        requires
            self.wf(),
            piece.position.on_board(),
        ensures
            final(moves)@ == old(moves)@ + self@.pawn_pushes(piece),
    {
        let forward: i32 = match piece.color {
            Color::Black => -1,
            Color::White => 1,
        };
        let r: i32 = piece.position.row as i32;
        let c: i32 = piece.position.col as i32;
        if !is_move_possible(r + forward, c) {
            assert(moves@ =~= old(moves)@ + self@.pawn_pushes(piece));
            return ;
        }
        let one_step = Position { row: (r + forward) as usize, col: piece.position.col };
        assert(one_step == square(r + forward, c as int));
        if self.is_any_piece(&one_step).is_some() {
            assert(moves@ =~= old(moves)@ + self@.pawn_pushes(piece));
            return ;
        }
        self.push_arrival(piece.position, one_step, piece.color, moves);
        let ghost mid = moves@;
        if !piece.has_moved && is_move_possible(r + 2 * forward, c) {
            let two_steps = Position { row: (r + 2 * forward) as usize, col: piece.position.col };
            assert(two_steps == square(r + 2 * forward, c as int));
            if self.is_any_piece(&two_steps).is_none() {
                moves.push(ChessMove::OrdinaryMove { from: piece.position, to: two_steps });
            }
        }
        assert(moves@ =~= old(moves)@ + self@.pawn_pushes(piece));
    }

    /// Whether the square beside the pawn, `offset` columns away, holds an
    /// enemy pawn that has just come there by a move of two rows.
    fn is_passed_by(&self, piece: Piece, offset: i32) -> (passed: bool)
        requires
            self.wf(),
            piece.position.on_board(),
            offset == 1 || offset == -1,
            0 <= piece.position.col + offset < 8,
        ensures
            passed == self@.passed_by(piece, offset as int),
    {
        let beside = Position {
            row: piece.position.row,
            col: (piece.position.col as i32 + offset) as usize,
        };
        assert(beside == square(piece.position.row as int, piece.position.col + offset));
        match self.is_any_piece(&beside) {
            Some(target) => {
                if target.color != piece.color && target.piece_type == PieceType::Pawn {
                    match self.last_move() {
                        Some(ChessMove::OrdinaryMove { from, to }) => {
                            target.position == to && (from.row >= 2 && from.row - 2 == to.row
                                || to.row >= 2 && to.row - 2 == from.row)
                        },
                        _ => false,
                    }
                } else {
                    false
                }
            },
            None => false,
        }
    }

    /// Adds the moves of a pawn to the square diagonally ahead, `offset`
    /// columns away.
    fn push_pawn_capture(&self, piece: Piece, offset: i32, attack: bool, moves: &mut Vec<ChessMove>)
        requires
            self.wf(),
            piece.position.on_board(),
            offset == 1 || offset == -1,
        ensures
            final(moves)@ == old(moves)@ + self@.pawn_capture(piece, offset as int, attack),
    {
        let forward: i32 = match piece.color {
            Color::Black => -1,
            Color::White => 1,
        };
        let r: i32 = piece.position.row as i32 + forward;
        let c: i32 = piece.position.col as i32 + offset;
        if !is_move_possible(r, c) {
            assert(moves@ =~= old(moves)@ + self@.pawn_capture(piece, offset as int, attack));
            return ;
        }
        let capture_pos = Position { row: r as usize, col: c as usize };
        assert(capture_pos == square(r as int, c as int));
        let step = ChessMove::OrdinaryMove { from: piece.position, to: capture_pos };
        match self.is_any_piece(&capture_pos) {
            Some(target) => {
                if target.color != piece.color {
                    if attack {
                        if target.piece_type == PieceType::King {
                            moves.push(step);
                        }
                    } else if target.piece_type != PieceType::King {
                        self.push_arrival(piece.position, capture_pos, piece.color, moves);
                    }
                }
            },
            None => {
                if !attack && self.is_passed_by(piece, offset) {
                    moves.push(step);
                }
            },
        }
        assert(moves@ =~= old(moves)@ + self@.pawn_capture(piece, offset as int, attack));
    }

    /// The moves that the rule of movement of `piece` allows on this board,
    /// castles apart, whether or not they leave its own king attacked. With
    /// `is_checking`, only the moves that land on the enemy king.
    pub fn get_other_moves(&self, piece: Piece, is_checking: bool) -> (chess_moves: Vec<ChessMove>)
        requires
            self.wf(),
            piece.position.on_board(),
        ensures
            chess_moves@ == self@.piece_moves(piece, is_checking),
    {
        let mut chess_moves: Vec<ChessMove> = Vec::new();
        match piece.piece_type {
            PieceType::Pawn => {
                if !is_checking {
                    self.push_pawn_pushes(piece, &mut chess_moves);
                }
                self.push_pawn_capture(piece, -1, is_checking, &mut chess_moves);
                self.push_pawn_capture(piece, 1, is_checking, &mut chess_moves);
                assert(chess_moves@ =~= self@.pawn_moves(piece, is_checking));
            },
            _ => {
                let steps = steps_of(piece.piece_type);
                let reach = reach_of(piece.piece_type);
                let mut i: usize = 0;
                while i < steps.len()
                    invariant
                        self.wf(),
                        piece.position.on_board(),
                        reach == crate::move_rules::reach(piece.piece_type),
                        steps@ == directions(piece.piece_type),
                        forall|j: int|
                            0 <= j < steps.len() ==> -2 <= (#[trigger] steps[j]).0 <= 2 && -2
                                <= steps[j].1 <= 2,
                        i <= steps.len(),
                        chess_moves@ == self@.rays(piece, is_checking, i as int),
                    decreases steps.len() - i,
                {
                    let (dr, dc) = steps[i];
                    self.push_ray(piece, dr, dc, reach, is_checking, &mut chess_moves);
                    i += 1;
                }
            },
        }
        chess_moves
    }

    /// Adds the castle of `king` with the corner in column `corner`, if the
    /// rules give one.
    #[verifier::loop_isolation(false)]
    fn push_castle_with(&self, king: Piece, corner: usize, moves: &mut Vec<ChessMove>)
        requires
            self.wf(),
            king.position.on_board(),
            corner == 0 || corner == 7,
        ensures
            final(moves)@ == old(moves)@ + self@.castle_with(king, corner as int),
    {
        let row = king.position.row;
        let col = king.position.col;
        let at_corner = Position { row, col: corner };
        assert(at_corner == square(row as int, corner as int));
        match self.is_any_piece(&at_corner) {
            Some(rook) => {
                if rook.piece_type == PieceType::Rook && !rook.has_moved {
                    let lo = if corner < col { corner } else { col };
                    let hi = if corner < col { col } else { corner };
                    let mut between: usize = lo + 1;
                    while between < hi
                        invariant
                            self.wf(),
                            row < 8,
                            lo < between,
                            hi < 8,
                            forall|c: int|
                                lo < c < between ==> (#[trigger] self@.at(
                                    square(row as int, c),
                                )) is None,
                        decreases hi - between,
                    {
                        let here = Position { row, col: between };
                        assert(here == square(row as int, between as int));
                        if self.is_any_piece(&here).is_some() {
                            assert(!self@.clear_between(row as int, lo as int, hi as int));
                            assert(moves@ =~= old(moves)@ + self@.castle_with(king, corner as int));
                            return ;
                        }
                        between += 1;
                    }
                    assert(self@.clear_between(row as int, lo as int, hi as int));
                    moves.push(ChessMove::Castle { king: king.position, rook: rook.position });
                }
            },
            None => {},
        }
        assert(moves@ =~= old(moves)@ + self@.castle_with(king, corner as int));
    }

    /// The castles of `king`: with the left corner, then with the right one,
    /// each if the king and the rook of that corner have not moved and the
    /// squares between them are empty.
    pub fn get_castle_moves(&self, king: Piece) -> (chess_moves: Vec<ChessMove>)
        requires
            self.wf(),
            king.position.on_board(),
        ensures
            chess_moves@ == self@.castle_moves(king),
    {
        let mut chess_moves: Vec<ChessMove> = Vec::new();
        if !king.has_moved {
            self.push_castle_with(king, 0, &mut chess_moves);
            self.push_castle_with(king, 7, &mut chess_moves);
            assert(chess_moves@ =~= self@.castle_moves(king));
        }
        chess_moves
    }
}

} // verus!
