//! The static score of a position: material and square values, blended
//! between a middle-game and an end-game scale by the pieces left.

use vstd::prelude::*;
use crate::pieces::{Color, PartyState, Piece, PieceType, Position};
use crate::board_view::BoardView;
use crate::chess_board::ChessBoard;
use crate::minimax::Minimax;

verus! {

/// What a square is worth to a pawn in the middle game.
pub const MG_PAWN_TABLE: [[i32; 8]; 8] = [
    [0, 0, 0, 0, 0, 0, 0, 0],
    [98, 134, 61, 95, 68, 126, 34, -11],
    [-6, 7, 26, 31, 65, 56, 25, -20],
    [-14, 13, 6, 21, 23, 12, 17, -23],
    [-27, -2, -5, 12, 17, 6, 10, -25],
    [-26, -4, -4, -10, 3, 3, 33, -12],
    [-35, -1, -20, -23, -15, 24, 38, -22],
    [0, 0, 0, 0, 0, 0, 0, 0],
];

/// What a square is worth to a pawn in the end game.
pub const EG_PAWN_TABLE: [[i32; 8]; 8] = [
    [0, 0, 0, 0, 0, 0, 0, 0],
    [178, 173, 158, 134, 147, 132, 165, 187],
    [94, 100, 85, 67, 56, 53, 82, 84],
    [32, 24, 13, 5, -2, 4, 17, 17],
    [13, 9, -3, -7, -7, -8, 3, -1],
    [4, 7, -6, 1, 0, -5, -1, -8],
    [13, 8, 8, 10, 13, 0, 2, -7],
    [0, 0, 0, 0, 0, 0, 0, 0],
];

/// What a square is worth to a knight in the middle game.
pub const MG_KNIGHT_TABLE: [[i32; 8]; 8] = [
    [-167, -89, -34, -49, 61, -97, -15, -107],
    [-73, -41, 72, 36, 23, 62, 7, -17],
    [-47, 60, 37, 65, 84, 129, 73, 44],
    [-9, 17, 19, 53, 37, 69, 18, 22],
    [-13, 4, 16, 13, 28, 19, 21, -8],
    [-23, -9, 12, 10, 19, 17, 25, -16],
    [-29, -53, -12, -3, -1, 18, -14, -19],
    [-105, -21, -58, -33, -17, -28, -19, -23],
];

/// What a square is worth to a knight in the end game.
pub const EG_KNIGHT_TABLE: [[i32; 8]; 8] = [
    [-58, -38, -13, -28, -31, -27, -63, -99],
    [-25, -8, -25, -2, -9, -25, -24, -52],
    [-24, -20, 10, 9, -1, -9, -19, -41],
    [-17, 3, 22, 22, 22, 11, 8, -18],
    [-18, -6, 16, 25, 16, 17, 4, -18],
    [-23, -3, -1, 15, 10, -3, -20, -22],
    [-42, -20, -10, -5, -2, -20, -23, -44],
    [-29, -51, -23, -15, -22, -18, -50, -64],
];

/// What a square is worth to a bishop in the middle game.
pub const MG_BISHOP_TABLE: [[i32; 8]; 8] = [
    [-29, 4, -82, -37, -25, -42, 7, -8],
    [-26, 16, -18, -13, 30, 59, 18, -47],
    [-16, 37, 43, 40, 35, 50, 37, -2],
    [-4, 5, 19, 50, 37, 37, 7, -2],
    [-6, 13, 13, 26, 34, 12, 10, 4],
    [0, 15, 15, 15, 14, 27, 18, 10],
    [4, 15, 16, 0, 7, 21, 33, 1],
    [-33, -3, -14, -21, -13, -12, -39, -21],
];

/// What a square is worth to a bishop in the end game.
pub const EG_BISHOP_TABLE: [[i32; 8]; 8] = [
    [-14, -21, -11, -8, -7, -9, -17, -24],
    [-8, -4, 7, -12, -3, -13, -4, -14],
    [2, -8, 0, -1, -2, 6, 0, 4],
    [-3, 9, 12, 9, 14, 10, 3, 2],
    [-6, 3, 13, 19, 7, 10, -3, -9],
    [-12, -3, 8, 10, 13, 3, -7, -15],
    [-14, -18, -7, -1, 4, -9, -15, -27],
    [-23, -9, -23, -5, -9, -16, -5, -17],
];

/// What a square is worth to a rook in the middle game.
pub const MG_ROOK_TABLE: [[i32; 8]; 8] = [
    [32, 42, 32, 51, 63, 9, 31, 43],
    [27, 32, 58, 62, 80, 67, 26, 44],
    [-5, 19, 26, 36, 17, 45, 61, 16],
    [-24, -11, 7, 26, 24, 35, -8, -20],
    [-36, -26, -12, -1, 9, -7, 6, -23],
    [-45, -25, -16, -17, 3, 0, -5, -33],
    [-44, -16, -20, -9, -1, 11, -6, -71],
    [-19, -13, 1, 17, 16, 7, -37, -26],
];

/// What a square is worth to a rook in the end game.
pub const EG_ROOK_TABLE: [[i32; 8]; 8] = [
    [13, 10, 18, 15, 12, 12, 8, 5],
    [11, 13, 13, 11, -3, 3, 8, 3],
    [7, 7, 7, 5, 4, -3, -5, -3],
    [4, 3, 13, 1, 2, 1, -1, 2],
    [3, 5, 8, 4, -5, -6, -8, -11],
    [-4, 0, -5, -1, -7, -12, -8, -16],
    [-6, -6, 0, 2, -9, -9, -11, -3],
    [-9, 2, 3, -1, -5, -13, 4, -20],
];

/// What a square is worth to a queen in the middle game.
pub const MG_QUEEN_TABLE: [[i32; 8]; 8] = [
    [-28, 0, 29, 12, 59, 44, 43, 45],
    [-24, -39, -5, 1, -16, 57, 28, 54],
    [-13, -17, 7, 8, 29, 56, 47, 57],
    [-27, -27, -16, -16, -1, 17, -2, 1],
    [-9, -26, -9, -10, -2, -4, 3, -3],
    [-14, 2, -11, -2, -5, 2, 14, 5],
    [-35, -8, 11, 2, 8, 15, -3, 1],
    [-1, -18, -9, 10, -15, -25, -31, -50],
];

/// What a square is worth to a queen in the end game.
pub const EG_QUEEN_TABLE: [[i32; 8]; 8] = [
    [-9, 22, 22, 27, 27, 19, 10, 20],
    [-17, 20, 32, 41, 58, 25, 30, 0],
    [-20, 6, 9, 49, 47, 35, 19, 9],
    [3, 22, 24, 45, 57, 40, 57, 36],
    [-18, 28, 19, 47, 31, 34, 39, 23],
    [-16, -27, 15, 6, 9, 17, 10, 5],
    [-22, -23, -30, -16, -16, -23, -36, -32],
    [-33, -28, -22, -43, -5, -32, -20, -41],
];

/// What a square is worth to a king in the middle game.
pub const MG_KING_TABLE: [[i32; 8]; 8] = [
    [-65, 23, 16, -15, -56, -34, 2, 13],
    [29, -1, -20, -7, -8, -4, -38, -29],
    [-9, 24, 2, -16, -20, 6, 22, -22],
    [-17, -20, -12, -27, -30, -25, -14, -36],
    [-49, -1, -27, -39, -46, -44, -33, -51],
    [-14, -14, -22, -46, -44, -30, -15, -27],
    [1, 7, -8, -64, -43, -16, 9, 8],
    [-15, 36, 12, -54, 8, -28, 24, 14],
];

/// What a square is worth to a king in the end game.
pub const EG_KING_TABLE: [[i32; 8]; 8] = [
    [-74, -35, -18, -18, -11, 15, 4, -17],
    [-12, 17, 14, 17, 17, 38, 23, 11],
    [10, 17, 23, 15, 20, 45, 44, 13],
    [-8, 22, 24, 27, 26, 33, 26, 3],
    [-18, -4, 21, 24, 27, 23, 9, -11],
    [-19, -3, 11, 21, 23, 16, 7, -9],
    [-27, -11, 4, 13, 14, 4, -5, -17],
    [-53, -34, -21, -11, -28, -14, -24, -43],
];

/// The table of square values of a piece in the middle game.
pub open spec fn mg_table_of(piece: PieceType) -> [[i32; 8]; 8] {
    match piece {
        PieceType::Pawn => MG_PAWN_TABLE,
        PieceType::Bishop => MG_BISHOP_TABLE,
        PieceType::Knight => MG_KNIGHT_TABLE,
        PieceType::Rook => MG_ROOK_TABLE,
        PieceType::King => MG_KING_TABLE,
        PieceType::Queen => MG_QUEEN_TABLE,
    }
}

/// The table of square values of a piece in the end game.
pub open spec fn eg_table_of(piece: PieceType) -> [[i32; 8]; 8] {
    match piece {
        PieceType::Pawn => EG_PAWN_TABLE,
        PieceType::Bishop => EG_BISHOP_TABLE,
        PieceType::Knight => EG_KNIGHT_TABLE,
        PieceType::Rook => EG_ROOK_TABLE,
        PieceType::King => EG_KING_TABLE,
        PieceType::Queen => EG_QUEEN_TABLE,
    }
}

/// The worth of a piece by its kind alone, in the middle game.
pub open spec fn mg_value_of(piece: PieceType) -> int {
    match piece {
        PieceType::Pawn => 82,
        PieceType::Knight => 337,
        PieceType::Bishop => 365,
        PieceType::Rook => 477,
        PieceType::Queen => 1025,
        PieceType::King => 0,
    }
}

/// The worth of a piece by its kind alone, in the end game.
pub open spec fn eg_value_of(piece: PieceType) -> int {
    match piece {
        PieceType::Pawn => 94,
        PieceType::Knight => 281,
        PieceType::Bishop => 297,
        PieceType::Rook => 512,
        PieceType::Queen => 936,
        PieceType::King => 0,
    }
}

/// What a piece adds to the phase of the game.
pub open spec fn phase_of(piece: PieceType) -> int {
    match piece {
        PieceType::Knight | PieceType::Bishop => 1,
        PieceType::Rook => 2,
        PieceType::Queen => 4,
        PieceType::Pawn | PieceType::King => 0,
    }
}

/// The row of a table that serves a piece of side `color` on row `row`:
/// the tables are laid out for White and read upside down for Black.
pub open spec fn table_row(color: Color, row: int) -> int {
    match color {
        Color::White => row,
        Color::Black => 7 - row,
    }
}

/// What is summed over the squares of a board.
pub enum Measure {
    /// The middle-game worth of the pieces of one side.
    Midgame(Color),
    /// The end-game worth of the pieces of one side.
    Endgame(Color),
    /// The phase weight of every piece.
    Phase,
}

/// What the piece `piece` on row `row`, column `col` adds to a measure.
pub open spec fn term(measure: Measure, piece: Piece, row: int, col: int) -> int {
    match measure {
        Measure::Midgame(side) => if piece.color == side {
            mg_table_of(piece.piece_type)[table_row(side, row)][col] + mg_value_of(
                piece.piece_type,
            )
        } else {
            0
        },
        Measure::Endgame(side) => if piece.color == side {
            eg_table_of(piece.piece_type)[table_row(side, row)][col] + eg_value_of(
                piece.piece_type,
            )
        } else {
            0
        },
        Measure::Phase => phase_of(piece.piece_type),
    }
}

/// A measure summed over the first `n` squares of a grid, row by row.
pub open spec fn tally(grid: Seq<Seq<Option<Piece>>>, measure: Measure, n: int) -> int
    decreases n,
{
    if n <= 0 {
        0
    } else {
        tally(grid, measure, n - 1) + match grid[(n - 1) / 8][(n - 1) % 8] {
            Some(piece) => term(measure, piece, (n - 1) / 8, (n - 1) % 8),
            None => 0,
        }
    }
}

/// Division by 24 that rounds towards zero.
pub open spec fn over_24(x: int) -> int {
    if x >= 0 {
        x / 24
    } else {
        -((-x) / 24)
    }
}

/// The blend of a middle-game score and an end-game score: the first
/// counts `phase` parts of 24 (at most all 24), the second the rest.
pub open spec fn tapered(mg_score: int, eg_score: int, phase: int) -> int {
    let mg_phase = if phase > 24 {
        24
    } else {
        phase
    };
    over_24(mg_score * mg_phase + eg_score * (24 - mg_phase))
}

/// The score of a grid for side `side`: its worth less that of the other
/// side, on both scales, blended by the phase of the game.
pub open spec fn evaluate(grid: Seq<Seq<Option<Piece>>>, side: Color) -> int {
    tapered(
        tally(grid, Measure::Midgame(side), 64) - tally(
            grid,
            Measure::Midgame(side.opposite()),
            64,
        ),
        tally(grid, Measure::Endgame(side), 64) - tally(
            grid,
            Measure::Endgame(side.opposite()),
            64,
        ),
        tally(grid, Measure::Phase, 64),
    )
}

/// No entry of a table of square values is beyond 200 either way.
pub open spec fn table_bounded(table: [[i32; 8]; 8]) -> bool {
    forall|r: int, c: int| 0 <= r < 8 && 0 <= c < 8 ==> -200 <= #[trigger] table[r][c] <= 200
}

/// Every table of square values is bounded.
pub proof fn lemma_tables_bounded(piece: PieceType)
    ensures
        table_bounded(mg_table_of(piece)),
        table_bounded(eg_table_of(piece)),
{
}

/// The table of square values of a piece in the middle game.
fn mg_table(piece: PieceType) -> (table: &'static [[i32; 8]; 8])
    ensures
        *table == mg_table_of(piece),
{
    match piece {
        PieceType::Pawn => &MG_PAWN_TABLE,
        PieceType::Bishop => &MG_BISHOP_TABLE,
        PieceType::Knight => &MG_KNIGHT_TABLE,
        PieceType::Rook => &MG_ROOK_TABLE,
        PieceType::King => &MG_KING_TABLE,
        PieceType::Queen => &MG_QUEEN_TABLE,
    }
}

/// The table of square values of a piece in the end game.
fn eg_table(piece: PieceType) -> (table: &'static [[i32; 8]; 8])
    ensures
        *table == eg_table_of(piece),
{
    match piece {
        PieceType::Pawn => &EG_PAWN_TABLE,
        PieceType::Bishop => &EG_BISHOP_TABLE,
        PieceType::Knight => &EG_KNIGHT_TABLE,
        PieceType::Rook => &EG_ROOK_TABLE,
        PieceType::King => &EG_KING_TABLE,
        PieceType::Queen => &EG_QUEEN_TABLE,
    }
}

/// The worth of a piece by its kind alone, in the middle game.
fn mg_piece_val(piece: PieceType) -> (value: i32)
    ensures
        value == mg_value_of(piece),
{
    match piece {
        PieceType::Pawn => 82,
        PieceType::Knight => 337,
        PieceType::Bishop => 365,
        PieceType::Rook => 477,
        PieceType::Queen => 1025,
        PieceType::King => 0,
    }
}

/// The worth of a piece by its kind alone, in the end game.
fn eg_piece_val(piece: PieceType) -> (value: i32)
    ensures
        value == eg_value_of(piece),
{
    match piece {
        PieceType::Pawn => 94,
        PieceType::Knight => 281,
        PieceType::Bishop => 297,
        PieceType::Rook => 512,
        PieceType::Queen => 936,
        PieceType::King => 0,
    }
}

/// What a piece adds to the phase of the game.
fn game_phase_val(piece: PieceType) -> (weight: i32)
    ensures
        weight == phase_of(piece),
{
    match piece {
        PieceType::Pawn => 0,
        PieceType::Knight => 1,
        PieceType::Bishop => 1,
        PieceType::Rook => 2,
        PieceType::Queen => 4,
        PieceType::King => 0,
    }
}

/// The sums over the first `n` squares stay within 1300 a square on the
/// two scales, and within 4 a square for the phase.
pub proof fn lemma_tally_bounded(grid: Seq<Seq<Option<Piece>>>, measure: Measure, n: int)
    requires
        0 <= n <= 64,
    ensures
        -1300 * n <= tally(grid, measure, n) <= 1300 * n,
        measure == Measure::Phase ==> 0 <= tally(grid, measure, n) <= 4 * n,
    decreases n,
{
    if n > 0 {
        lemma_tally_bounded(grid, measure, n - 1);
        match grid[(n - 1) / 8][(n - 1) % 8] {
            Some(piece) => {
                lemma_tables_bounded(piece.piece_type);
            },
            None => {},
        }
    }
}

/// Every score that the evaluation gives lies within 200000 either way.
pub proof fn lemma_evaluate_bounded(grid: Seq<Seq<Option<Piece>>>, side: Color)
    ensures
        -200000 < evaluate(grid, side) < 200000,
{
    lemma_tally_bounded(grid, Measure::Midgame(side), 64);
    lemma_tally_bounded(grid, Measure::Midgame(side.opposite()), 64);
    lemma_tally_bounded(grid, Measure::Endgame(side), 64);
    lemma_tally_bounded(grid, Measure::Endgame(side.opposite()), 64);
    lemma_tally_bounded(grid, Measure::Phase, 64);
    let phase = tally(grid, Measure::Phase, 64);
    let mg_phase = if phase > 24 { 24 } else { phase };
    lemma_tapered_bound(
        tally(grid, Measure::Midgame(side), 64) - tally(
            grid,
            Measure::Midgame(side.opposite()),
            64,
        ),
        tally(grid, Measure::Endgame(side), 64) - tally(
            grid,
            Measure::Endgame(side.opposite()),
            64,
        ),
        mg_phase,
    );
}

/// What is good for one side is as bad for the other: the score of a grid
/// for one side is the negative of its score for the other side.
pub proof fn lemma_evaluate_antisymmetric(grid: Seq<Seq<Option<Piece>>>, side: Color)
    ensures
        evaluate(grid, side.opposite()) == -evaluate(grid, side),
{
    let mg = tally(grid, Measure::Midgame(side), 64) - tally(
        grid,
        Measure::Midgame(side.opposite()),
        64,
    );
    let eg = tally(grid, Measure::Endgame(side), 64) - tally(
        grid,
        Measure::Endgame(side.opposite()),
        64,
    );
    let phase = tally(grid, Measure::Phase, 64);
    let mg_phase = if phase > 24 { 24 } else { phase };
    assert(side.opposite().opposite() == side);
    assert((-mg) * mg_phase + (-eg) * (24 - mg_phase) == -(mg * mg_phase + eg * (24 - mg_phase)))
        by (nonlinear_arith);
}

/// What a piece on row `row`, column `col` is worth to its own side on the
/// middle-game scale and on the end-game scale, and what it adds to the
/// phase.
fn worth(piece: Piece, row: usize, col: usize) -> (w: (i32, i32, i32))
    requires
        row < 8,
        col < 8,
    ensures
        w.0 == term(Measure::Midgame(piece.color), piece, row as int, col as int),
        w.1 == term(Measure::Endgame(piece.color), piece, row as int, col as int),
        w.2 == term(Measure::Phase, piece, row as int, col as int),
        -1300 <= w.0 <= 1300,
        -1300 <= w.1 <= 1300,
        0 <= w.2 <= 4,
{
    proof {
        lemma_tables_bounded(piece.piece_type);
    }
    let table_row = match piece.color {
        Color::White => row,
        Color::Black => 7 - row,
    };
    let mg = mg_table(piece.piece_type)[table_row][col] + mg_piece_val(piece.piece_type);
    let eg = eg_table(piece.piece_type)[table_row][col] + eg_piece_val(piece.piece_type);
    (mg, eg, game_phase_val(piece.piece_type))
}

/// The five sums that a score is made of.
struct Totals {
    white_mg: i32,
    black_mg: i32,
    white_eg: i32,
    black_eg: i32,
    game_phase: i32,
}

impl Totals {
    /// Whether these are the sums over the first `n` squares of `grid`.
    spec fn counts(self, grid: Seq<Seq<Option<Piece>>>, n: int) -> bool {
        &&& self.white_mg == tally(grid, Measure::Midgame(Color::White), n)
        &&& self.black_mg == tally(grid, Measure::Midgame(Color::Black), n)
        &&& self.white_eg == tally(grid, Measure::Endgame(Color::White), n)
        &&& self.black_eg == tally(grid, Measure::Endgame(Color::Black), n)
        &&& self.game_phase == tally(grid, Measure::Phase, n)
        &&& -1300 * n <= self.white_mg <= 1300 * n
        &&& -1300 * n <= self.black_mg <= 1300 * n
        &&& -1300 * n <= self.white_eg <= 1300 * n
        &&& -1300 * n <= self.black_eg <= 1300 * n
        &&& 0 <= self.game_phase <= 4 * n
    }

    /// The sums with one more square counted.
    fn with_square(self, found: Option<Piece>, row: usize, col: usize, Ghost(grid): Ghost<
        Seq<Seq<Option<Piece>>>,
    >) -> (next: Totals)
        requires
            row < 8,
            col < 8,
            found == grid[row as int][col as int],
            self.counts(grid, row * 8 + col),
        ensures
            next.counts(grid, row * 8 + col + 1),
    {
        let ghost n = row * 8 + col + 1;
        assert((n - 1) / 8 == row && (n - 1) % 8 == col);
        match found {
            Some(piece) => {
                let (mg, eg, phase) = worth(piece, row, col);
                match piece.color {
                    Color::White => Totals {
                        white_mg: self.white_mg + mg,
                        white_eg: self.white_eg + eg,
                        game_phase: self.game_phase + phase,
                        ..self
                    },
                    Color::Black => Totals {
                        black_mg: self.black_mg + mg,
                        black_eg: self.black_eg + eg,
                        game_phase: self.game_phase + phase,
                        ..self
                    },
                }
            },
            None => self,
        }
    }
}

/// A blend of two scores within 166400 either way lies within 200000.
proof fn lemma_tapered_bound(mg_score: int, eg_score: int, mg_phase: int)
    requires
        -166400 <= mg_score <= 166400,
        -166400 <= eg_score <= 166400,
        0 <= mg_phase <= 24,
    ensures
        -4000000 <= mg_score * mg_phase <= 4000000,
        -4000000 <= eg_score * (24 - mg_phase) <= 4000000,
        -200000 < over_24(mg_score * mg_phase + eg_score * (24 - mg_phase)) < 200000,
{
    let eg_phase = 24 - mg_phase;
    assert(-166400 * mg_phase <= mg_score * mg_phase <= 166400 * mg_phase) by (nonlinear_arith)
        requires
            -166400 <= mg_score <= 166400,
            0 <= mg_phase,
    ;
    assert(-166400 * eg_phase <= eg_score * eg_phase <= 166400 * eg_phase) by (nonlinear_arith)
        requires
            -166400 <= eg_score <= 166400,
            0 <= eg_phase,
    ;
}

/// The score of the position for the side that the search is made for:
/// material and square values of that side less those of the other, on the
/// middle-game and the end-game scale, blended by the phase of the game.
/// All 64 squares count; who is to move does not.
pub fn eval_function(minimax: &Minimax, chess_board: ChessBoard) -> (score: i32)
    requires
        chess_board.wf(),
    ensures
        score == evaluate(chess_board@.grid, minimax.color),
        -200000 < score < 200000,
{
    let ghost grid = chess_board@.grid;
    let mut totals = Totals { white_mg: 0, black_mg: 0, white_eg: 0, black_eg: 0, game_phase: 0 };
    let mut row: usize = 0;
    while row < 8
        invariant
            chess_board.wf(),
            grid == chess_board@.grid,
            row <= 8,
            totals.counts(grid, row * 8),
        decreases 8 - row,
    {
        let mut col: usize = 0;
        while col < 8
            invariant
                chess_board.wf(),
                grid == chess_board@.grid,
                row < 8,
                col <= 8,
                totals.counts(grid, row * 8 + col),
            decreases 8 - col,
        {
            let here = Position { row, col };
            assert(chess_board@.at(here) == grid[row as int][col as int]);
            let found = chess_board.get_piece_from_pos(&here);
            totals = totals.with_square(found, row, col, Ghost(grid));
            col += 1;
        }
        row += 1;
    }
    let mg_score: i32;
    let eg_score: i32;
    match minimax.color {
        Color::White => {
            mg_score = totals.white_mg - totals.black_mg;
            eg_score = totals.white_eg - totals.black_eg;
        },
        Color::Black => {
            mg_score = totals.black_mg - totals.white_mg;
            eg_score = totals.black_eg - totals.white_eg;
        },
    }
    let mut mg_phase = totals.game_phase;
    if mg_phase > 24 {
        mg_phase = 24;
    }
    let eg_phase = 24 - mg_phase;
    proof {
        lemma_tapered_bound(mg_score as int, eg_score as int, mg_phase as int);
    }
    (mg_score * mg_phase + eg_score * eg_phase) / 24
}

/// The worth of a piece in the plain count of material.
pub open spec fn plain_value_of(piece: PieceType) -> int {
    match piece {
        PieceType::Rook => 500,
        PieceType::Bishop => 330,
        PieceType::Knight => 320,
        PieceType::Queen => 900,
        PieceType::Pawn => 100,
        PieceType::King => 0,
    }
}

/// The plain worth of the first `n` of some pieces.
pub open spec fn material(pieces: Seq<Piece>, n: int) -> int
    decreases n,
{
    if n <= 0 {
        0
    } else {
        material(pieces, n - 1) + plain_value_of(pieces[n - 1].piece_type)
    }
}

/// The plain score of a board for side `side`. A mate is the worst score
/// there is for the side that is to move and the best for the other; a
/// stalemate is worth 10; any other board is worth the material of `side`
/// less the material of the side that is not to move.
pub open spec fn evaluate_plain(v: BoardView, side: Color) -> int {
    match v.party_state {
        PartyState::CheckMate => if side == v.turn {
            i32::MIN as int
        } else {
            i32::MAX as int
        },
        PartyState::Pat => 10,
        _ => material(v.pieces(side), v.pieces(side).len() as int) - material(
            v.pieces(v.turn.opposite()),
            v.pieces(v.turn.opposite()).len() as int,
        ),
    }
}

/// The plain worth of some pieces, of which there are at most sixteen.
fn count_material(pieces: &Vec<Piece>) -> (points: i32)
    requires
        pieces.len() <= 16,
    ensures
        points == material(pieces@, pieces.len() as int),
        0 <= points <= 900 * pieces.len(),
{
    let mut points: i32 = 0;
    let mut i: usize = 0;
    while i < pieces.len()
        invariant
            pieces.len() <= 16,
            i <= pieces.len(),
            points == material(pieces@, i as int),
            0 <= points <= 900 * i,
        decreases pieces.len() - i,
    {
        match pieces[i].piece_type {
            PieceType::Rook => points += 500,
            PieceType::Bishop => points += 330,
            PieceType::Knight => points += 320,
            PieceType::Queen => points += 900,
            PieceType::Pawn => points += 100,
            PieceType::King => {},
        }
        i += 1;
    }
    points
}

/// The earlier, plain score: the recorded status decides a mate or a
/// stalemate, and the count of material any other board.
pub fn eval_function_old(minimax: &Minimax, chess_board: ChessBoard) -> (evaluation: i32)
    requires
        chess_board.wf(),
    ensures
        evaluation == evaluate_plain(chess_board@, minimax.color),
{
    match chess_board.get_party_state() {
        PartyState::CheckMate => {
            if minimax.color == chess_board.get_turn() {
                i32::MIN
            } else {
                i32::MAX
            }
        },
        PartyState::Pat => 10,
        _ => {
            let ennemy_pieces = chess_board.get_ennemy_pieces_by_color(minimax.color);
            let friend_pieces = chess_board.get_friendly_pieces_by_color(minimax.color);
            let ennemy_points = count_material(&ennemy_pieces);
            let friend_points = count_material(&friend_pieces);
            friend_points - ennemy_points
        },
    }
}

} // verus!
