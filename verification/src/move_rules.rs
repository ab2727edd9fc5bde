//! The rules of movement, over the model of a board: where each piece may
//! go, when a king is attacked, which moves are legal, and the status that
//! follows.

use vstd::prelude::*;
use crate::pieces::{in_range, square, ChessMove, Color, PartyState, Piece, PieceType, Position};
use crate::board_view::BoardView;

verus! {

/// The steps that a piece of kind `kind` takes, as (rows, columns), in the
/// order in which its moves are listed. A pawn has rules of its own.
pub open spec fn directions(kind: PieceType) -> Seq<(i32, i32)> {
    match kind {
        PieceType::Pawn => seq![],
        PieceType::Rook => seq![(0i32, 1i32), (0i32, -1i32), (1i32, 0i32), (-1i32, 0i32)],
        PieceType::Bishop => seq![(1i32, 1i32), (1i32, -1i32), (-1i32, -1i32), (-1i32, 1i32)],
        PieceType::Knight => seq![
            (2i32, 1i32),
            (2i32, -1i32),
            (-2i32, 1i32),
            (-2i32, -1i32),
            (1i32, 2i32),
            (1i32, -2i32),
            (-1i32, 2i32),
            (-1i32, -2i32),
        ],
        PieceType::Queen => seq![
            (0i32, 1i32),
            (0i32, -1i32),
            (1i32, 0i32),
            (-1i32, 0i32),
            (1i32, 1i32),
            (1i32, -1i32),
            (-1i32, -1i32),
            (-1i32, 1i32),
        ],
        PieceType::King => seq![
            (1i32, 0i32),
            (1i32, 1i32),
            (0i32, 1i32),
            (-1i32, 1i32),
            (-1i32, 0i32),
            (-1i32, -1i32),
            (0i32, -1i32),
            (1i32, -1i32),
        ],
    }
}

/// How many steps a piece of kind `kind` may take in one direction: one for
/// a knight or a king, up to the edge of the board for a rook, a bishop or a
/// queen.
pub open spec fn reach(kind: PieceType) -> nat {
    match kind {
        PieceType::Pawn => 0,
        PieceType::Knight | PieceType::King => 1,
        _ => 7,
    }
}

/// The four moves by which a pawn that arrives on the last row is promoted:
/// to a queen, a rook, a bishop, a knight.
pub open spec fn promotions(from: Position, to: Position) -> Seq<ChessMove> {
    seq![
        ChessMove::Promotion { from, to, piece_type: PieceType::Queen },
        ChessMove::Promotion { from, to, piece_type: PieceType::Rook },
        ChessMove::Promotion { from, to, piece_type: PieceType::Bishop },
        ChessMove::Promotion { from, to, piece_type: PieceType::Knight },
    ]
}

/// The moves by which a pawn of side `color` arrives on `to`: the four
/// promotions on the last row, one ordinary move elsewhere.
pub open spec fn arrival(from: Position, to: Position, color: Color) -> Seq<ChessMove> {
    if to.row == color.promotion_row() {
        promotions(from, to)
    } else {
        seq![ChessMove::OrdinaryMove { from, to }]
    }
}

/// The square `k` steps from row `r`, column `c` in the direction (`dr`,
/// `dc`).
pub open spec fn along(r: int, c: int, dr: int, dc: int, k: int) -> Position {
    square(r + k * dr, c + k * dc)
}

/// Whether `m` is an ordinary move that lands on `p`.
pub open spec fn lands_on(m: ChessMove, p: Position) -> bool {
    m matches ChessMove::OrdinaryMove { to, .. } && to == p
}

impl BoardView {
    /// The moves of `piece` along one direction, from the square (`r`, `c`)
    /// on, with at most `steps` steps left. The ray ends at the edge of the
    /// board or at the first occupied square. In normal mode each empty
    /// square is a move, and so is the occupied one if it holds an enemy
    /// piece that is no king. In attack mode the only move is the one onto the
    /// enemy king.
    pub open spec fn ray(
        self,
        piece: Piece,
        r: int,
        c: int,
        dr: int,
        dc: int,
        steps: nat,
        attack: bool,
    ) -> Seq<ChessMove>
        decreases steps,
    {
        if steps == 0 || !in_range(r + dr, c + dc) {
            Seq::empty()
        } else {
            let to = square(r + dr, c + dc);
            let step = seq![ChessMove::OrdinaryMove { from: piece.position, to }];
            match self.at(to) {
                Some(target) => if target.color != piece.color && (target.piece_type
                    == PieceType::King) == attack {
                    step
                } else {
                    Seq::empty()
                },
                None => (if attack {
                    Seq::empty()
                } else {
                    step
                }) + self.ray(piece, r + dr, c + dc, dr, dc, (steps - 1) as nat, attack),
            }
        }
    }

    /// The moves of a rook, bishop, queen, knight or king along its
    /// direction number `i`.
    pub open spec fn ray_of(self, piece: Piece, i: int, attack: bool) -> Seq<ChessMove> {
        self.ray(
            piece,
            piece.position.row as int,
            piece.position.col as int,
            directions(piece.piece_type)[i].0 as int,
            directions(piece.piece_type)[i].1 as int,
            reach(piece.piece_type),
            attack,
        )
    }

    /// The moves of a rook, bishop, queen, knight or king along the first `n`
    /// of its directions.
    pub open spec fn rays(self, piece: Piece, attack: bool, n: int) -> Seq<ChessMove>
        decreases n,
    {
        if n <= 0 {
            Seq::empty()
        } else {
            self.rays(piece, attack, n - 1) + self.ray_of(piece, n - 1, attack)
        }
    }

    /// Whether the path of `k` steps from row `r`, column `c` in the
    /// direction (`dr`, `dc`) is open: its last square lies on the board,
    /// and every square before it lies on the board and is empty.
    pub open spec fn open_path(self, r: int, c: int, dr: int, dc: int, k: int) -> bool {
        &&& in_range(r + k * dr, c + k * dc)
        &&& forall|j: int|
            1 <= j < k ==> in_range(r + j * dr, c + j * dc) && (#[trigger] self.at(
                along(r, c, dr, dc, j),
            )) is None
    }

    /// Whether `piece` may come to stand on `to` in the given mode: in
    /// normal mode on an empty square or on an enemy piece that is no king,
    /// in attack mode on the enemy king.
    pub open spec fn may_reach(self, piece: Piece, to: Position, attack: bool) -> bool {
        if attack {
            &&& to.on_board()
            &&& self.at(to) matches Some(target) && target.color != piece.color
                && target.piece_type == PieceType::King
        } else {
            self.may_land(piece, to)
        }
    }

    /// Whether `to` is the square that `piece` reaches after `k` steps from
    /// row `r`, column `c` in the direction (`dr`, `dc`): the path is open
    /// and the piece may come to stand there.
    pub open spec fn arrives(
        self,
        piece: Piece,
        r: int,
        c: int,
        dr: int,
        dc: int,
        k: int,
        attack: bool,
        to: Position,
    ) -> bool {
        &&& to == along(r, c, dr, dc, k)
        &&& self.open_path(r, c, dr, dc, k)
        &&& self.may_reach(piece, to, attack)
    }

    /// The moves of a pawn straight ahead: one step onto an empty square,
    /// and two if the pawn has not moved and that square is empty too.
    pub open spec fn pawn_pushes(self, piece: Piece) -> Seq<ChessMove> {
        let r = piece.position.row as int;
        let c = piece.position.col as int;
        let f = piece.color.forward();
        if !in_range(r + f, c) || self.at(square(r + f, c)) is Some {
            Seq::empty()
        } else {
            arrival(piece.position, square(r + f, c), piece.color) + (if !piece.has_moved
                && in_range(r + 2 * f, c) && self.at(square(r + 2 * f, c)) is None {
                seq![ChessMove::OrdinaryMove { from: piece.position, to: square(r + 2 * f, c) }]
            } else {
                Seq::empty()
            })
        }
    }

    /// Whether the square beside the pawn, `offset` columns away, holds an
    /// enemy pawn that has just come there by a move of two rows.
    pub open spec fn passed_by(self, piece: Piece, offset: int) -> bool {
        let beside = square(piece.position.row as int, piece.position.col + offset);
        &&& self.at(beside) matches Some(target)
        &&& target.color != piece.color && target.piece_type == PieceType::Pawn
        &&& self.last_move matches Some(ChessMove::OrdinaryMove { from, to })
        &&& target.position == to
        &&& (from.row - to.row == 2 || to.row - from.row == 2)
    }

    /// The moves of a pawn to the square diagonally ahead, `offset` columns
    /// away. In normal mode: onto an enemy piece that is no king, or onto an
    /// empty square past an enemy pawn that has just made its double step.
    /// In attack mode: onto the enemy king only.
    pub open spec fn pawn_capture(self, piece: Piece, offset: int, attack: bool) -> Seq<ChessMove> {
        let r = piece.position.row + piece.color.forward();
        let c = piece.position.col + offset;
        if !in_range(r, c) {
            Seq::empty()
        } else {
            let to = square(r, c);
            match self.at(to) {
                Some(target) => if target.color == piece.color {
                    Seq::empty()
                } else if attack {
                    if target.piece_type == PieceType::King {
                        seq![ChessMove::OrdinaryMove { from: piece.position, to }]
                    } else {
                        Seq::empty()
                    }
                } else {
                    if target.piece_type == PieceType::King {
                        Seq::empty()
                    } else {
                        arrival(piece.position, to, piece.color)
                    }
                },
                None => if !attack && self.passed_by(piece, offset) {
                    seq![ChessMove::OrdinaryMove { from: piece.position, to }]
                } else {
                    Seq::empty()
                },
            }
        }
    }

    /// The moves of a pawn: straight ahead (in normal mode only), then
    /// diagonally to the left, then diagonally to the right.
    pub open spec fn pawn_moves(self, piece: Piece, attack: bool) -> Seq<ChessMove> {
        (if attack {
            Seq::empty()
        } else {
            self.pawn_pushes(piece)
        }) + self.pawn_capture(piece, -1, attack) + self.pawn_capture(piece, 1, attack)
    }

    /// The moves that the rule of movement of `piece` allows, castles apart,
    /// whether or not they leave its own king attacked. In attack mode these
    /// are only the moves that land on the enemy king.
    pub open spec fn piece_moves(self, piece: Piece, attack: bool) -> Seq<ChessMove> {
        if piece.piece_type == PieceType::Pawn {
            self.pawn_moves(piece, attack)
        } else {
            self.rays(piece, attack, directions(piece.piece_type).len() as int)
        }
    }

    /// Whether `piece` may come to stand on `to`: the square lies on the
    /// board and is empty or holds an enemy piece that is no king.
    pub open spec fn may_land(self, piece: Piece, to: Position) -> bool {
        &&& to.on_board()
        &&& self.at(to) matches Some(target) ==> target.color != piece.color && target.piece_type
            != PieceType::King
    }

    /// What holds of every move that the rule of movement of `piece` gives
    /// in normal mode: it starts on the square of `piece`, it ends where
    /// `piece` may land, it is no castle, and only a pawn is promoted, to a
    /// queen, a rook, a bishop or a knight.
    pub open spec fn sound(self, piece: Piece, m: ChessMove) -> bool {
        match m {
            ChessMove::OrdinaryMove { from, to } => from == piece.position && self.may_land(
                piece,
                to,
            ),
            ChessMove::Promotion { from, to, piece_type } => {
                &&& from == piece.position && self.may_land(piece, to)
                &&& piece.piece_type == PieceType::Pawn
                &&& piece_type != PieceType::King && piece_type != PieceType::Pawn
            },
            ChessMove::Castle { .. } => false,
        }
    }

    /// Whether every square of row `row` strictly between the columns `lo`
    /// and `hi` is empty.
    pub open spec fn clear_between(self, row: int, lo: int, hi: int) -> bool {
        forall|c: int| lo < c < hi ==> (#[trigger] self.at(square(row, c))) is None
    }

    /// The castle of `king` with the corner in column `corner`, if there is
    /// one: the corner holds a rook that has not moved, and every square
    /// strictly between the two is empty.
    pub open spec fn castle_with(self, king: Piece, corner: int) -> Seq<ChessMove> {
        let row = king.position.row as int;
        let col = king.position.col as int;
        match self.at(square(row, corner)) {
            Some(rook) => if rook.piece_type == PieceType::Rook && !rook.has_moved
                && self.clear_between(
                row,
                if corner < col {
                    corner
                } else {
                    col
                },
                if corner < col {
                    col
                } else {
                    corner
                },
            ) {
                seq![ChessMove::Castle { king: king.position, rook: rook.position }]
            } else {
                Seq::empty()
            },
            None => Seq::empty(),
        }
    }

    /// The castles of `king`: none if it has moved, else the one with the
    /// left corner, then the one with the right corner. Whether the king
    /// would cross or reach an attacked square is not asked here.
    pub open spec fn castle_moves(self, king: Piece) -> Seq<ChessMove> {
        if king.has_moved {
            Seq::empty()
        } else {
            self.castle_with(king, 0) + self.castle_with(king, 7)
        }
    }

    /// Whether the king on `king` and the rook on `rook` stand ready to
    /// castle: the king is the one of the side to move, the rook stands in a
    /// corner of the king's row, neither has moved, and every square
    /// strictly between them is empty.
    pub open spec fn castle_ready(self, king: Position, rook: Position) -> bool {
        &&& king.on_board() && rook.on_board()
        &&& self.at(king) matches Some(k) && k.piece_type == PieceType::King && k.color
            == self.turn && !k.has_moved
        &&& self.at(rook) matches Some(r) && r.piece_type == PieceType::Rook && !r.has_moved
        &&& rook.row == king.row && (rook.col == 0 || rook.col == 7)
        &&& self.clear_between(
            king.row as int,
            if rook.col < king.col {
                rook.col as int
            } else {
                king.col as int
            },
            if rook.col < king.col {
                king.col as int
            } else {
                rook.col as int
            },
        )
    }

    /// Whether something bars the castle of the king on `king` with the
    /// rook on `rook`: one of the two has moved, or a square strictly
    /// between them is occupied.
    pub open spec fn castle_barred(self, king: Position, rook: Position) -> bool {
        ||| self.at(king) matches Some(k) && k.has_moved
        ||| self.at(rook) matches Some(r) && r.has_moved
        ||| exists|c: int|
            (king.col < c < rook.col || rook.col < c < king.col) && (#[trigger] self.at(
                square(king.row as int, c),
            )) is Some
    }

    /// Whether `piece` bears on the square `target`: the enemy king stands
    /// there, and the square is one step diagonally ahead of a pawn, or at
    /// the end of an open path of any other piece along one of its
    /// directions and within its reach.
    pub open spec fn bears_on(self, piece: Piece, target: Position) -> bool {
        &&& self.may_reach(piece, target, true)
        &&& if piece.piece_type == PieceType::Pawn {
            &&& target.row == piece.position.row + piece.color.forward()
            &&& target.col == piece.position.col + 1 || target.col == piece.position.col - 1
        } else {
            exists|i: int, k: int|
                0 <= i < directions(piece.piece_type).len() && 1 <= k <= reach(piece.piece_type)
                    && #[trigger] self.arrives(
                    piece,
                    piece.position.row as int,
                    piece.position.col as int,
                    directions(piece.piece_type)[i].0 as int,
                    directions(piece.piece_type)[i].1 as int,
                    k,
                    true,
                    target,
                )
        }
    }

    /// Whether `piece` attacks the square `target`: one of its moves in
    /// attack mode lands there.
    pub open spec fn attacks(self, piece: Piece, target: Position) -> bool {
        exists|j: int|
            0 <= j < self.piece_moves(piece, true).len() && lands_on(
                #[trigger] self.piece_moves(piece, true)[j],
                target,
            )
    }

    /// Whether the king of the side to move is attacked by a piece of the
    /// other side.
    pub open spec fn in_check(self) -> bool {
        exists|i: int|
            0 <= i < self.positions(self.turn.opposite()).len() && self.attacks(
                #[trigger] self.pieces(self.turn.opposite())[i],
                self.king_square(self.turn),
            )
    }

    /// Whether the side to move, having played `m`, has a king that is not
    /// attacked.
    pub open spec fn keeps_king_safe(self, m: ChessMove) -> bool {
        !self.apply(m).flipped().in_check()
    }

    /// Those of the first `n` moves of `moves` that keep the king safe, in
    /// their order; with `ordinary_only`, castles and promotions are dropped.
    pub open spec fn safe_among(
        self,
        moves: Seq<ChessMove>,
        n: int,
        ordinary_only: bool,
    ) -> Seq<ChessMove>
        decreases n,
    {
        if n <= 0 {
            Seq::empty()
        } else {
            let kept = self.safe_among(moves, n - 1, ordinary_only);
            let m = moves[n - 1];
            if (!ordinary_only || m is OrdinaryMove) && self.keeps_king_safe(m) {
                kept.push(m)
            } else {
                kept
            }
        }
    }

    /// The moves of one piece that are legal while the king is attacked:
    /// its ordinary moves after which the king is attacked no more.
    pub open spec fn escapes_of(self, piece: Piece) -> Seq<ChessMove> {
        let moves = self.piece_moves(piece, false);
        self.safe_among(moves, moves.len() as int, true)
    }

    /// The moves of one piece that are legal while the king is not attacked:
    /// for the king, its moves and castles that do not end on an attacked
    /// square; for any other piece, every move that its rule allows.
    pub open spec fn free_moves_of(self, piece: Piece) -> Seq<ChessMove> {
        if piece.piece_type == PieceType::King {
            let moves = self.piece_moves(piece, false) + self.castle_moves(piece);
            self.safe_among(moves, moves.len() as int, false)
        } else {
            self.piece_moves(piece, false)
        }
    }

    /// Whether `m` is a legal move of `piece`, a piece of the side to move,
    /// given whether the king of that side is attacked.
    pub open spec fn allows(self, piece: Piece, m: ChessMove, checked: bool) -> bool {
        if checked {
            m is OrdinaryMove && self.piece_moves(piece, false).contains(m)
                && self.keeps_king_safe(m)
        } else if piece.piece_type == PieceType::King {
            (self.piece_moves(piece, false).contains(m) || self.castle_moves(piece).contains(m))
                && self.keeps_king_safe(m)
        } else {
            self.piece_moves(piece, false).contains(m)
        }
    }

    /// The legal moves of the first `n` pieces of the side to move, piece
    /// after piece in the order of its list.
    pub open spec fn moves_upto(self, n: int, checked: bool) -> Seq<ChessMove>
        decreases n,
    {
        if n <= 0 {
            Seq::empty()
        } else {
            let piece = self.pieces(self.turn)[n - 1];
            self.moves_upto(n - 1, checked) + (if checked {
                self.escapes_of(piece)
            } else {
                self.free_moves_of(piece)
            })
        }
    }

    /// The legal moves of the side to move.
    pub open spec fn party_moves(self) -> Seq<ChessMove> {
        self.moves_upto(self.positions(self.turn).len() as int, self.in_check())
    }

    /// The status of the side to move: whether its king is attacked, and
    /// whether it has a legal move.
    pub open spec fn status(self) -> PartyState {
        if self.in_check() {
            if self.party_moves().len() == 0 {
                PartyState::CheckMate
            } else {
                PartyState::Check
            }
        } else {
            if self.party_moves().len() == 0 {
                PartyState::Pat
            } else {
                PartyState::Normal
            }
        }
    }

    /// The board with its status set.
    pub open spec fn with_state(self, state: PartyState) -> BoardView {
        BoardView { party_state: state, ..self }
    }
}

} // verus!
