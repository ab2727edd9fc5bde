//! The board of a game in play: its squares, the two lists of occupied
//! squares, the side to move, the last move and the status.

use vstd::prelude::*;
use crate::pieces::{square, ChessMove, Color, PartyState, Piece, PieceType, Position};
use crate::board_view::{initial_kind, initial_piece, two_rows, without, BoardView};
use crate::board_lemmas::{
    lemma_apply_wf, lemma_cleared, lemma_initial_wf, lemma_relocate_grid, lemma_relocate_wf,
    may_relocate,
};

verus! {

/// A board. Its fields are private: every board comes from
/// [`ChessBoard::new`] and changes through the functions of this library
/// only, which keep it well formed.
#[derive(Debug)]
pub struct ChessBoard {
    board: Vec<Vec<Option<Piece>>>,
    black_positions: Vec<Position>,
    white_positions: Vec<Position>,
    last_move: Option<ChessMove>,
    party_state: PartyState,
    turn: Color,
}

/// The rows of a grid as sequences.
pub open spec fn grid_view(board: Vec<Vec<Option<Piece>>>) -> Seq<Seq<Option<Piece>>> {
    board@.map_values(|row: Vec<Option<Piece>>| row@)
}

impl View for ChessBoard {
    type V = BoardView;

    /// The board as the contracts see it.
    closed spec fn view(&self) -> BoardView {
        BoardView {
            grid: grid_view(self.board),
            black_positions: self.black_positions@,
            white_positions: self.white_positions@,
            last_move: self.last_move,
            party_state: self.party_state,
            turn: self.turn,
        }
    }
}

/// The kind of the piece that starts in column `c` of a back row.
fn starting_kind(c: usize) -> (kind: PieceType)
    requires
        c < 8,
    ensures
        kind == initial_kind(c as int),
{
    if c == 0 || c == 7 {
        PieceType::Rook
    } else if c == 1 || c == 6 {
        PieceType::Knight
    } else if c == 2 || c == 5 {
        PieceType::Bishop
    } else if c == 3 {
        PieceType::Queen
    } else {
        PieceType::King
    }
}

/// What stands on row `r`, column `c` when a game begins.
fn starting_piece(r: usize, c: usize) -> (piece: Option<Piece>)
    requires
        r < 8,
        c < 8,
    ensures
        piece == initial_piece(r as int, c as int),
{
    let position = Position { row: r, col: c };
    if r == 0 || r == 7 {
        let color = if r == 0 { Color::White } else { Color::Black };
        Some(Piece { piece_type: starting_kind(c), position, color, has_moved: false })
    } else if r == 1 || r == 6 {
        let color = if r == 1 { Color::White } else { Color::Black };
        Some(Piece { piece_type: PieceType::Pawn, position, color, has_moved: false })
    } else {
        None
    }
}

/// How many squares of the two rows that start at row `first` lie among the
/// first `n` squares of the board, row by row.
spec fn seen_of_two_rows(first: int, n: int) -> int {
    if n <= first * 8 {
        0
    } else if n >= first * 8 + 16 {
        16
    } else {
        n - first * 8
    }
}

/// A copy of a list of squares.
fn copy_positions(list: &Vec<Position>) -> (copy: Vec<Position>)
    ensures
        copy@ == list@,
{
    let mut copy: Vec<Position> = Vec::new();
    let mut i: usize = 0;
    while i < list.len()
        invariant
            i <= list.len(),
            copy@ == list@.take(i as int),
        decreases list.len() - i,
    {
        copy.push(list[i]);
        i += 1;
        assert(copy@ == list@.take(i as int));
    }
    assert(list@.take(list.len() as int) == list@);
    copy
}

/// A copy of a grid.
fn copy_grid(board: &Vec<Vec<Option<Piece>>>) -> (copy: Vec<Vec<Option<Piece>>>)
    ensures
        grid_view(copy) == grid_view(*board),
{
    let mut copy: Vec<Vec<Option<Piece>>> = Vec::new();
    let mut r: usize = 0;
    while r < board.len()
        invariant
            r <= board.len(),
            copy.len() == r,
            forall|i: int| 0 <= i < r ==> (#[trigger] copy[i])@ == board[i]@,
        decreases board.len() - r,
    {
        let mut row: Vec<Option<Piece>> = Vec::new();
        let mut c: usize = 0;
        while c < board[r].len()
            invariant
                r < board.len(),
                c <= board[r as int].len(),
                row@ == board[r as int]@.take(c as int),
            decreases board[r as int].len() - c,
        {
            row.push(board[r][c]);
            c += 1;
            assert(row@ == board[r as int]@.take(c as int));
        }
        assert(board[r as int]@.take(c as int) == board[r as int]@);
        copy.push(row);
        r += 1;
    }
    assert(grid_view(copy) =~= grid_view(*board));
    copy
}

impl Clone for ChessBoard {
    /// A second board with the same pieces, lists, turn, last move and status.
    fn clone(&self) -> (copy: ChessBoard)
        ensures
            copy@ == self@,
    {
        ChessBoard {
            board: copy_grid(&self.board),
            black_positions: copy_positions(&self.black_positions),
            white_positions: copy_positions(&self.white_positions),
            last_move: self.last_move,
            party_state: self.party_state,
            turn: self.turn,
        }
    }
}

impl ChessBoard {
    /// The invariant of a board, stated over its view.
    pub open spec fn wf(&self) -> bool {
        self@.wf()
    }

    /// The board on which a game begins.
    pub fn new() -> (b: ChessBoard)
        ensures
            b@ == BoardView::initial(),
            b.wf(),
    {
        let mut black_positions: Vec<Position> = Vec::new();
        let mut white_positions: Vec<Position> = Vec::new();
        let mut board: Vec<Vec<Option<Piece>>> = Vec::new();
        let mut r: usize = 0;
        while r < 8
            invariant
                r <= 8,
                board.len() == r,
                forall|i: int|
                    0 <= i < r ==> (#[trigger] board[i])@ == Seq::new(
                        8,
                        |c: int| initial_piece(i, c),
                    ),
                white_positions@ == two_rows(0, seen_of_two_rows(0, r * 8)),
                black_positions@ == two_rows(6, seen_of_two_rows(6, r * 8)),
            decreases 8 - r,
        {
            let mut row: Vec<Option<Piece>> = Vec::new();
            let mut c: usize = 0;
            while c < 8
                invariant
                    r < 8,
                    c <= 8,
                    row@ == Seq::new(c as nat, |j: int| initial_piece(r as int, j)),
                    white_positions@ == two_rows(0, seen_of_two_rows(0, r * 8 + c)),
                    black_positions@ == two_rows(6, seen_of_two_rows(6, r * 8 + c)),
                decreases 8 - c,
            {
                let piece = starting_piece(r, c);
                row.push(piece);
                match piece {
                    Some(pc) => {
                        match pc.color {
                            Color::White => white_positions.push(pc.position),
                            Color::Black => black_positions.push(pc.position),
                        }
                    },
                    None => {},
                }
                c += 1;
                assert(row@ == Seq::new(c as nat, |j: int| initial_piece(r as int, j)));
                assert(white_positions@ == two_rows(0, seen_of_two_rows(0, r * 8 + c)));
                assert(black_positions@ == two_rows(6, seen_of_two_rows(6, r * 8 + c)));
            }
            board.push(row);
            r += 1;
        }
        let b = ChessBoard {
            board,
            black_positions,
            white_positions,
            last_move: None,
            party_state: PartyState::Normal,
            turn: Color::White,
        };
        proof {
            assert(b@.grid =~= BoardView::initial().grid);
            lemma_initial_wf();
        }
        b
    }

    /// The side that is to move.
    pub fn get_turn(&self) -> (turn: Color)
        ensures
            turn == self@.turn,
    {
        self.turn
    }

    /// The status that the last update found.
    pub fn get_party_state(&self) -> (state: PartyState)
        ensures
            state == self@.party_state,
    {
        self.party_state
    }

    /// A copy of the squares, row by row, for a caller to read or draw.
    pub fn get_board(&self) -> (grid: Vec<Vec<Option<Piece>>>)
        ensures
            grid_view(grid) == self@.grid,
            grid.len() == self@.grid.len(),
            forall|r: int| 0 <= r < grid.len() ==> (#[trigger] grid[r])@ == self@.grid[r],
    {
        let grid = copy_grid(&self.board);
        assert forall|r: int| 0 <= r < grid.len() implies (#[trigger] grid[r])@
            == self@.grid[r] by {
            assert(grid_view(grid)[r] == grid[r]@);
        }
        grid
    }

    /// How many squares the list of side `color` names.
    pub(crate) fn count_positions(&self, color: Color) -> (count: usize)
        ensures
            count == self@.positions(color).len(),
    {
        match color {
            Color::White => self.white_positions.len(),
            Color::Black => self.black_positions.len(),
        }
    }

    /// Entry `i` of the list of side `color`.
    pub(crate) fn position_at(&self, color: Color, i: usize) -> (p: Position)
        requires
            i < self@.positions(color).len(),
        ensures
            p == self@.positions(color)[i as int],
    {
        match color {
            Color::White => self.white_positions[i],
            Color::Black => self.black_positions[i],
        }
    }

    /// The move that led to this board, if any.
    pub fn last_move(&self) -> (last: Option<ChessMove>)
        ensures
            last == self@.last_move,
    {
        self.last_move
    }

    /// Sets the status and changes nothing else.
    pub(crate) fn change_party_state(&mut self, party_state: PartyState)
        ensures
            final(self)@ == old(self)@.with_state(party_state),
    {
        self.party_state = party_state;
    }

    /// Passes the turn to the other side and changes nothing else.
    pub fn change_turn(&mut self)
        ensures
            final(self)@ == old(self)@.flipped(),
            old(self).wf() ==> final(self).wf(),
    {
        self.turn = self.turn.enemy();
        proof {
            if old(self).wf() {
                crate::board_lemmas::lemma_wf_of_pieces(old(self)@, self@);
            }
        }
    }
}

/// The index of `p` in a list that holds it once.
fn find_position(list: &Vec<Position>, p: Position) -> (i: usize)
    requires
        list@.no_duplicates(),
        list@.contains(p),
    ensures
        i < list.len(),
        i == list@.index_of(p),
{
    let mut i: usize = 0;
    while i < list.len()
        invariant
            i <= list.len(),
            list@.no_duplicates(),
            list@.contains(p),
            forall|j: int| 0 <= j < i ==> list[j] != p,
        decreases list.len() - i,
    {
        if list[i] == p {
            assert(list@[list@.index_of(p)] == p);
            return i;
        }
        i += 1;
    }
    proof {
        let j = list@.index_of(p);
        assert(list@[j] == p);
    }
    0
}

/// Writes `x` on square `p` of a grid.
fn set_square(board: &mut Vec<Vec<Option<Piece>>>, p: Position, x: Option<Piece>)
    requires
        old(board).len() == 8,
        forall|r: int| 0 <= r < 8 ==> (#[trigger] old(board)[r]).len() == 8,
        p.on_board(),
    ensures
        final(board).len() == 8,
        forall|r: int| 0 <= r < 8 ==> (#[trigger] final(board)[r]).len() == 8,
        grid_view(*final(board)) == grid_view(*old(board)).update(
            p.row as int,
            grid_view(*old(board))[p.row as int].update(p.col as int, x),
        ),
{
    board[p.row][p.col] = x;
    assert(grid_view(*board) =~= grid_view(*old(board)).update(
        p.row as int,
        grid_view(*old(board))[p.row as int].update(p.col as int, x),
    ));
}

impl ChessBoard {
    /// Whether the grid has its eight rows of eight squares.
    spec fn shaped(&self) -> bool {
        &&& self.board.len() == 8
        &&& forall|r: int| 0 <= r < 8 ==> (#[trigger] self.board[r]).len() == 8
    }

    /// A board with a well-formed view has its full grid.
    proof fn lemma_shaped(&self)
        requires
            self@.grid.len() == 8,
            forall|r: int| 0 <= r < 8 ==> (#[trigger] self@.grid[r]).len() == 8,
        ensures
            self.shaped(),
            forall|p: Position|
                p.on_board() ==> self@.at(p) == #[trigger] self.board[p.row as int][p.col as int],
    {
        assert forall|r: int| 0 <= r < 8 implies (#[trigger] self.board[r]).len() == 8 by {
            assert(self@.grid[r] == self.board[r]@);
        }
    }

    /// What stands on square `p`.
    pub(crate) fn get_piece_from_pos(&self, p: &Position) -> (piece: Option<Piece>)
        requires
            self.wf(),
            p.on_board(),
        ensures
            piece == self@.at(*p),
    {
        proof {
            self.lemma_shaped();
        }
        self.board[p.row][p.col]
    }

    /// Enters the square of `piece` at the end of its side's list.
    fn add_piece_position(&mut self, piece: &Piece)
        ensures
            final(self)@ == old(self)@.with_positions(
                piece.color,
                old(self)@.positions(piece.color).push(piece.position),
            ),
    {
        match piece.color {
            Color::Black => self.black_positions.push(piece.position),
            Color::White => self.white_positions.push(piece.position),
        }
    }

    /// Strikes the square of `piece` from its side's list.
    fn remove_piece_position(&mut self, piece: &Piece)
        requires
            old(self)@.positions(piece.color).no_duplicates(),
            old(self)@.positions(piece.color).contains(piece.position),
        ensures
            final(self)@ == old(self)@.with_positions(
                piece.color,
                without(old(self)@.positions(piece.color), piece.position),
            ),
    {
        match piece.color {
            Color::Black => {
                let index = find_position(&self.black_positions, piece.position);
                self.black_positions.remove(index);
            },
            Color::White => {
                let index = find_position(&self.white_positions, piece.position);
                self.white_positions.remove(index);
            },
        }
    }

    /// Takes the piece on `from` to `to`, where it is of kind `kind` and has
    /// moved; what stood on `to` leaves the board.
    fn relocate(&mut self, from: Position, to: Position, kind: PieceType)
        requires
            old(self).wf(),
            may_relocate(old(self)@, from, to, kind),
        ensures
            final(self)@ == old(self)@.relocate(from, to, kind),
            final(self).wf(),
    {
        proof {
            self.lemma_shaped();
            lemma_relocate_wf(self@, from, to, kind);
            lemma_cleared(self@, to, Color::White);
            lemma_cleared(self@, to, Color::Black);
        }
        let ghost before = self@;
        let mut piece = self.board[from.row][from.col].unwrap();
        match self.board[to.row][to.col] {
            Some(victim) => {
                assert(before.holds(to, victim.color));
                self.remove_piece_position(&victim);
            },
            None => {},
        }
        assert(self@ == before.cleared(to));
        assert(before.holds(from, piece.color));
        self.remove_piece_position(&piece);
        piece.position = to;
        piece.piece_type = kind;
        piece.has_moved = true;
        self.add_piece_position(&piece);
        proof {
            self.lemma_shaped();
        }
        set_square(&mut self.board, to, Some(piece));
        set_square(&mut self.board, from, None);
    }

    /// Carries out a move: the pieces go where it says, it becomes the last
    /// move, and the turn passes. Whether the move is legal is not asked.
    pub fn make_a_move(&mut self, chess_move: &ChessMove)
        requires
            old(self).wf(),
            old(self)@.applicable(*chess_move),
        ensures
            final(self)@ == old(self)@.apply(*chess_move),
            final(self).wf(),
    {
        proof {
            self.lemma_shaped();
            lemma_apply_wf(self@, *chess_move);
        }
        match *chess_move {
            ChessMove::Castle { king, rook } => {
                let king_kind = self.board[king.row][king.col].unwrap().piece_type;
                let rook_kind = self.board[rook.row][rook.col].unwrap().piece_type;
                let new_rook_col: usize;
                let new_king_col: usize;
                if rook.col == 7 {
                    new_rook_col = rook.col - 2;
                    new_king_col = king.col + 2;
                } else {
                    new_rook_col = rook.col + 3;
                    new_king_col = king.col - 2;
                }
                let rook_to = Position { row: rook.row, col: new_rook_col };
                let king_to = Position { row: king.row, col: new_king_col };
                proof {
                    lemma_relocate_grid(self@, rook, rook_to, rook_kind);
                }
                self.relocate(rook, rook_to, rook_kind);
                self.relocate(king, king_to, king_kind);
            },
            ChessMove::OrdinaryMove { from, to } => {
                let kind = self.board[from.row][from.col].unwrap().piece_type;
                self.relocate(from, to, kind);
            },
            ChessMove::Promotion { from, to, piece_type } => {
                self.relocate(from, to, piece_type);
            },
        }
        self.last_move = Some(*chess_move);
        self.change_turn();
    }
}

} // verus!
