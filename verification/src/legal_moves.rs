//! Check, the legal moves and the status of a game, and the one entry by
//! which a game moves forward.

use vstd::prelude::*;
use vstd::pervasive::unreached;
use crate::pieces::{ChessMove, Color, PartyState, Piece, PieceType, Position};
use crate::board_lemmas::lemma_apply_wf;
use crate::chess_board::ChessBoard;
use crate::move_lemmas::{
    lemma_all_joined, lemma_castle_applicable, lemma_piece_moves_sound, lemma_sound_applicable,
};
use crate::move_rules::lands_on;

verus! {

impl ChessBoard {
    /// The pieces of side `color`, in the order of its list.
    pub fn get_friendly_pieces_by_color(&self, color: Color) -> (pieces: Vec<Piece>)
        requires
            self.wf(),
        ensures
            pieces@ == self@.pieces(color),
    {
        let mut pieces: Vec<Piece> = Vec::new();
        let count = self.count_positions(color);
        let mut i: usize = 0;
        while i < count
            invariant
                self.wf(),
                count == self@.positions(color).len(),
                i <= count,
                pieces@ == self@.pieces(color).take(i as int),
            decreases count - i,
        {
            let pos = self.position_at(color, i);
            assert(self@.holds(self@.positions(color)[i as int], color));
            pieces.push(self.get_piece_from_pos(&pos).unwrap());
            i += 1;
            assert(pieces@ =~= self@.pieces(color).take(i as int));
        }
        assert(self@.pieces(color).take(count as int) =~= self@.pieces(color));
        pieces
    }

    /// The pieces of the side that is not to move, in the order of its list.
    /// The side to move decides; `_color` is not read.
    pub fn get_ennemy_pieces_by_color(&self, _color: Color) -> (pieces: Vec<Piece>)
        requires
            self.wf(),
        ensures
            pieces@ == self@.pieces(self@.turn.opposite()),
    {
        self.get_ennemy_pieces()
    }

    /// The pieces of the side to move.
    pub(crate) fn get_friendly_pieces(&self) -> (pieces: Vec<Piece>)
        requires
            self.wf(),
        ensures
            pieces@ == self@.pieces(self@.turn),
    {
        self.get_friendly_pieces_by_color(self.get_turn())
    }

    /// The pieces of the side that is not to move.
    pub(crate) fn get_ennemy_pieces(&self) -> (pieces: Vec<Piece>)
        requires
            self.wf(),
        ensures
            pieces@ == self@.pieces(self@.turn.opposite()),
    {
        self.get_friendly_pieces_by_color(self.get_turn().enemy())
    }

    /// The king of the side to move.
    pub fn get_king(&self) -> (king: Piece)
        requires
            self.wf(),
        ensures
            king.piece_type == PieceType::King,
            king.color == self@.turn,
            king.position == self@.king_square(self@.turn),
            self@.at(king.position) == Some(king),
    {
        let pieces = self.get_friendly_pieces();
        let ghost side = self@.turn;
        let ghost k = self@.king_square(side);
        assert(self@.sole_king(k, side));
        let mut i: usize = 0;
        while i < pieces.len()
            invariant
                self.wf(),
                side == self@.turn,
                k == self@.king_square(side),
                self@.sole_king(k, side),
                pieces@ == self@.pieces(side),
                i <= pieces.len(),
                forall|j: int| 0 <= j < i ==> (#[trigger] pieces[j]).piece_type != PieceType::King,
            decreases pieces.len() - i,
        {
            let piece = pieces[i];
            assert(self@.holds(self@.positions(side)[i as int], side));
            if piece.piece_type == PieceType::King {
                assert(self@.king_at(self@.positions(side)[i as int], side));
                return piece;
            }
            i += 1;
        }
        proof {
            assert(self@.holds(k, side));
            assert(self@.positions(side).contains(k));
            let list = self@.positions(side);
            let j = choose|j: int| 0 <= j < list.len() && list[j] == k;
            assert(pieces[j].piece_type == PieceType::King);
        }
        unreached()
    }

    /// Whether the king of the side to move is attacked by a piece of the
    /// other side.
    #[verifier::loop_isolation(false)]
    pub fn is_king_in_check(&self) -> (check: bool)
        requires
            self.wf(),
        ensures
            check == self@.in_check(),
    {
        let opposite_pieces = self.get_ennemy_pieces();
        let king = self.get_king();
        let ghost enemy = self@.turn.opposite();
        let mut i: usize = 0;
        while i < opposite_pieces.len()
            invariant
                self.wf(),
                enemy == self@.turn.opposite(),
                opposite_pieces@ == self@.pieces(enemy),
                king.position == self@.king_square(self@.turn),
                i <= opposite_pieces.len(),
                forall|k: int|
                    0 <= k < i ==> !self@.attacks(#[trigger] self@.pieces(enemy)[k], king.position),
            decreases opposite_pieces.len() - i,
        {
            let piece = opposite_pieces[i];
            assert(self@.holds(self@.positions(enemy)[i as int], enemy));
            let moves = self.get_other_moves(piece, true);
            let mut j: usize = 0;
            while j < moves.len()
                invariant
                    j <= moves.len(),
                    forall|k: int| 0 <= k < j ==> !lands_on(#[trigger] moves[k], king.position),
                decreases moves.len() - j,
            {
                match moves[j] {
                    ChessMove::OrdinaryMove { from: _, to } => {
                        if to.row == king.position.row && to.col == king.position.col {
                            assert(lands_on(moves[j as int], king.position));
                            assert(self@.attacks(self@.pieces(enemy)[i as int], king.position));
                            return true;
                        }
                    },
                    _ => {},
                }
                j += 1;
            }
            i += 1;
        }
        false
    }

    /// Whether the side to move, having played `m`, has a king that is not
    /// attacked. The move is tried on a copy of the board.
    fn leaves_king_safe(&self, m: &ChessMove) -> (safe: bool)
        requires
            self.wf(),
            self@.applicable(*m),
        ensures
            safe == self@.keeps_king_safe(*m),
    {
        proof {
            lemma_apply_wf(self@, *m);
        }
        let mut chess_board_clone = self.clone();
        chess_board_clone.make_a_move(m);
        chess_board_clone.change_turn();
        !chess_board_clone.is_king_in_check()
    }

    /// Adds those of `candidates` that keep the king safe; with
    /// `ordinary_only`, castles and promotions are left out unasked.
    fn push_safe(&self, candidates: &Vec<ChessMove>, ordinary_only: bool, out: &mut Vec<ChessMove>)
        requires
            self.wf(),
            forall|j: int| 0 <= j < candidates.len() ==> self@.applicable(#[trigger] candidates[j]),
        ensures
            final(out)@ == old(out)@ + self@.safe_among(
                candidates@,
                candidates.len() as int,
                ordinary_only,
            ),
    {
        let mut j: usize = 0;
        assert(out@ =~= old(out)@ + self@.safe_among(candidates@, 0, ordinary_only));
        while j < candidates.len()
            invariant
                self.wf(),
                forall|k: int|
                    0 <= k < candidates.len() ==> self@.applicable(#[trigger] candidates[k]),
                j <= candidates.len(),
                out@ == old(out)@ + self@.safe_among(candidates@, j as int, ordinary_only),
            decreases candidates.len() - j,
        {
            let m = candidates[j];
            let eligible = match m {
                ChessMove::OrdinaryMove { .. } => true,
                _ => !ordinary_only,
            };
            if eligible && self.leaves_king_safe(&m) {
                out.push(m);
            }
            j += 1;
            assert(out@ =~= old(out)@ + self@.safe_among(candidates@, j as int, ordinary_only));
        }
    }

    /// The legal moves while the king is attacked: of each piece of the side
    /// to move, the ordinary moves after which the king is attacked no more.
    pub fn find_safe_moves(&self) -> (safe_moves: Vec<ChessMove>)
        requires
            self.wf(),
        ensures
            safe_moves@ == self@.moves_upto(self@.positions(self@.turn).len() as int, true),
    {
        let friendly_pieces = self.get_friendly_pieces();
        let mut safe_moves: Vec<ChessMove> = Vec::new();
        let ghost side = self@.turn;
        let mut i: usize = 0;
        while i < friendly_pieces.len()
            invariant
                self.wf(),
                side == self@.turn,
                friendly_pieces@ == self@.pieces(side),
                i <= friendly_pieces.len(),
                safe_moves@ == self@.moves_upto(i as int, true),
            decreases friendly_pieces.len() - i,
        {
            let piece = friendly_pieces[i];
            assert(self@.holds(self@.positions(side)[i as int], side));
            let chess_moves = self.get_other_moves(piece, false);
            proof {
                self.lemma_moves_applicable(piece);
            }
            self.push_safe(&chess_moves, true, &mut safe_moves);
            i += 1;
        }
        safe_moves
    }

    /// The legal moves while the king is not attacked: the moves and castles
    /// of the king that do not end on an attacked square, and every move
    /// that the rule of movement of another piece allows.
    pub fn get_all_moves(&self) -> (chess_moves: Vec<ChessMove>)
        requires
            self.wf(),
        ensures
            chess_moves@ == self@.moves_upto(self@.positions(self@.turn).len() as int, false),
    {
        let pieces = self.get_friendly_pieces();
        let mut chess_moves: Vec<ChessMove> = Vec::new();
        let ghost side = self@.turn;
        let mut i: usize = 0;
        while i < pieces.len()
            invariant
                self.wf(),
                side == self@.turn,
                pieces@ == self@.pieces(side),
                i <= pieces.len(),
                chess_moves@ == self@.moves_upto(i as int, false),
            decreases pieces.len() - i,
        {
            let piece = pieces[i];
            assert(self@.holds(self@.positions(side)[i as int], side));
            let mut moves = self.get_other_moves(piece, false);
            match piece.piece_type {
                PieceType::King => {
                    let mut castle_moves = self.get_castle_moves(piece);
                    proof {
                        self.lemma_moves_applicable(piece);
                        lemma_castle_applicable(self@, piece);
                        lemma_all_joined(
                            moves@,
                            castle_moves@,
                            |m: ChessMove| self@.applicable(m),
                        );
                    }
                    moves.append(&mut castle_moves);
                    self.push_safe(&moves, false, &mut chess_moves);
                },
                _ => {
                    chess_moves.append(&mut moves);
                },
            }
            i += 1;
        }
        chess_moves
    }

    /// Every move that the rule of movement gives to a piece of the board
    /// can be carried out.
    proof fn lemma_moves_applicable(&self, piece: Piece)
        requires
            self.wf(),
            piece.position.on_board(),
            self@.at(piece.position) == Some(piece),
        ensures
            forall|j: int|
                0 <= j < self@.piece_moves(piece, false).len() ==> self@.applicable(
                    #[trigger] self@.piece_moves(piece, false)[j],
                ),
    {
        lemma_piece_moves_sound(self@, piece);
        let moves = self@.piece_moves(piece, false);
        assert forall|j: int| 0 <= j < moves.len() implies self@.applicable(#[trigger] moves[j]) by {
            lemma_sound_applicable(self@, piece, moves[j]);
        }
    }

    /// The legal moves of the side to move.
    pub fn get_party_moves(&self) -> (moves: Vec<ChessMove>)
        requires
            self.wf(),
        ensures
            moves@ == self@.party_moves(),
    {
        if self.is_king_in_check() {
            self.find_safe_moves()
        } else {
            self.get_all_moves()
        }
    }

    /// Finds the status of the side to move, records it, and returns the
    /// legal moves.
    fn _update_party(&mut self) -> (moves: Vec<ChessMove>)
        requires
            old(self).wf(),
        ensures
            final(self)@ == old(self)@.with_state(old(self)@.status()),
            moves@ == old(self)@.party_moves(),
            final(self).wf(),
    {
        let moves;
        if self.is_king_in_check() {
            moves = self.find_safe_moves();
            if moves.len() == 0 {
                self.change_party_state(PartyState::CheckMate);
            } else {
                self.change_party_state(PartyState::Check);
            }
        } else {
            moves = self.get_all_moves();
            if moves.len() == 0 {
                self.change_party_state(PartyState::Pat);
            } else {
                self.change_party_state(PartyState::Normal);
            }
        }
        proof {
            crate::board_lemmas::lemma_wf_of_pieces(old(self)@, self@);
        }
        moves
    }

    /// Whether `chess_move` can be carried out on this board: its squares
    /// lie on the board, its pieces are there, no king is taken or made, and
    /// a castle finds the two landing squares empty. A move that the move
    /// generator gave for this board always can.
    pub fn can_apply(&self, chess_move: &ChessMove) -> (ok: bool)
        requires
            self.wf(),
        ensures
            ok == self@.applicable(*chess_move),
    {
        match *chess_move {
            ChessMove::OrdinaryMove { from, to } => {
                if !(from.row < 8 && from.col < 8 && to.row < 8 && to.col < 8) || from == to {
                    return false;
                }
                self.get_piece_from_pos(&from).is_some() && !self.holds_king(&to)
            },
            ChessMove::Promotion { from, to, piece_type } => {
                if !(from.row < 8 && from.col < 8 && to.row < 8 && to.col < 8) || from == to {
                    return false;
                }
                piece_type != PieceType::King && self.get_piece_from_pos(&from).is_some()
                    && !self.holds_king(&from) && !self.holds_king(&to)
            },
            ChessMove::Castle { king, rook } => {
                if !(king.row < 8 && king.col < 8 && rook.row < 8 && rook.col < 8) || king == rook
                    || king.row != rook.row {
                    return false;
                }
                if rook.col == 7 {
                    if king.col + 2 >= 8 {
                        return false;
                    }
                } else if king.col < 2 || rook.col + 3 >= 8 {
                    return false;
                }
                let rook_to = Position {
                    row: rook.row,
                    col: if rook.col == 7 { 5 } else { rook.col + 3 },
                };
                let king_to = Position {
                    row: king.row,
                    col: if rook.col == 7 { king.col + 2 } else { king.col - 2 },
                };
                self.get_piece_from_pos(&king).is_some() && self.get_piece_from_pos(&rook).is_some()
                    && rook_to != king_to && self.get_piece_from_pos(&rook_to).is_none()
                    && self.get_piece_from_pos(&king_to).is_none()
            },
        }
    }

    /// Whether a king stands on `p`.
    fn holds_king(&self, p: &Position) -> (found: bool)
        requires
            self.wf(),
            p.on_board(),
        ensures
            found == (self@.at(*p) matches Some(pc) && pc.piece_type == PieceType::King),
    {
        match self.get_piece_from_pos(p) {
            Some(piece) => piece.piece_type == PieceType::King,
            None => false,
        }
    }

    /// Plays `chess_move`: the pieces move, the turn passes, the status of
    /// the side now to move is found and recorded, and its legal moves are
    /// returned. Whether `chess_move` itself was legal is not asked.
    pub fn update_board(&mut self, chess_move: ChessMove) -> (moves: Vec<ChessMove>)
        requires
            old(self).wf(),
            old(self)@.applicable(chess_move),
        ensures
            final(self)@ == old(self)@.apply(chess_move).with_state(
                old(self)@.apply(chess_move).status(),
            ),
            moves@ == old(self)@.apply(chess_move).party_moves(),
            final(self).wf(),
    {
        self.make_a_move(&chess_move);
        self._update_party()
    }
}

} // verus!
