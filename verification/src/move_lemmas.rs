//! What holds of the moves that the rules give: each of them can be carried
//! out on the board it was made for.

use vstd::prelude::*;
use crate::pieces::{in_range, square, ChessMove, Piece, PieceType, Position};
use crate::board_view::BoardView;
use crate::move_rules::{along, arrival, directions, lands_on, reach};

verus! {

/// The elements of two lists that each satisfy a property satisfy it in
/// the joined list.
pub proof fn lemma_all_joined(
    a: Seq<ChessMove>,
    b: Seq<ChessMove>,
    holds: spec_fn(ChessMove) -> bool,
)
    requires
        forall|j: int| 0 <= j < a.len() ==> holds(#[trigger] a[j]),
        forall|j: int| 0 <= j < b.len() ==> holds(#[trigger] b[j]),
    ensures
        forall|j: int| 0 <= j < (a + b).len() ==> holds(#[trigger] (a + b)[j]),
{
    assert forall|j: int| 0 <= j < (a + b).len() implies holds(#[trigger] (a + b)[j]) by {
        if j < a.len() {
            assert((a + b)[j] == a[j]);
        } else {
            assert((a + b)[j] == b[j - a.len()]);
        }
    }
}

/// Every move along a ray in normal mode is sound.
pub proof fn lemma_ray_sound(
    v: BoardView,
    piece: Piece,
    r: int,
    c: int,
    dr: int,
    dc: int,
    steps: nat,
)
    requires
        piece.piece_type != PieceType::Pawn,
    ensures
        forall|j: int|
            0 <= j < v.ray(piece, r, c, dr, dc, steps, false).len() ==> v.sound(
                piece,
                #[trigger] v.ray(piece, r, c, dr, dc, steps, false)[j],
            ),
    decreases steps,
{
    if steps == 0 || !in_range(r + dr, c + dc) {
    } else {
        let to = square(r + dr, c + dc);
        let step = seq![ChessMove::OrdinaryMove { from: piece.position, to }];
        match v.at(to) {
            Some(target) => {},
            None => {
                let rest = v.ray(piece, r + dr, c + dc, dr, dc, (steps - 1) as nat, false);
                lemma_ray_sound(v, piece, r + dr, c + dc, dr, dc, (steps - 1) as nat);
                assert(v.sound(piece, step[0]));
                lemma_all_joined(step, rest, |m: ChessMove| v.sound(piece, m));
            },
        }
    }
}

/// Every move along the first `n` directions of a piece in normal mode is
/// sound.
pub proof fn lemma_rays_sound(v: BoardView, piece: Piece, n: int)
    requires
        piece.piece_type != PieceType::Pawn,
    ensures
        forall|j: int|
            0 <= j < v.rays(piece, false, n).len() ==> v.sound(
                piece,
                #[trigger] v.rays(piece, false, n)[j],
            ),
    decreases n,
{
    if n > 0 {
        let d = directions(piece.piece_type)[n - 1];
        lemma_rays_sound(v, piece, n - 1);
        lemma_ray_sound(
            v,
            piece,
            piece.position.row as int,
            piece.position.col as int,
            d.0 as int,
            d.1 as int,
            reach(piece.piece_type),
        );
        lemma_all_joined(
            v.rays(piece, false, n - 1),
            v.ray(
                piece,
                piece.position.row as int,
                piece.position.col as int,
                d.0 as int,
                d.1 as int,
                reach(piece.piece_type),
                false,
            ),
            |m: ChessMove| v.sound(piece, m),
        );
    }
}

/// Every move by which a pawn arrives where it may land is sound.
pub proof fn lemma_arrival_sound(v: BoardView, piece: Piece, to: Position)
    requires
        piece.piece_type == PieceType::Pawn,
        v.may_land(piece, to),
    ensures
        forall|j: int|
            0 <= j < arrival(piece.position, to, piece.color).len() ==> v.sound(
                piece,
                #[trigger] arrival(piece.position, to, piece.color)[j],
            ),
{
}

/// Every move of a pawn in normal mode is sound.
pub proof fn lemma_pawn_sound(v: BoardView, piece: Piece)
    requires
        piece.piece_type == PieceType::Pawn,
    ensures
        forall|j: int|
            0 <= j < v.pawn_moves(piece, false).len() ==> v.sound(
                piece,
                #[trigger] v.pawn_moves(piece, false)[j],
            ),
{
    let holds = |m: ChessMove| v.sound(piece, m);
    let r = piece.position.row as int;
    let c = piece.position.col as int;
    let f = piece.color.forward();
    assert forall|j: int| 0 <= j < v.pawn_pushes(piece).len() implies holds(
        #[trigger] v.pawn_pushes(piece)[j],
    ) by {
        if in_range(r + f, c) && v.at(square(r + f, c)) is None {
            lemma_arrival_sound(v, piece, square(r + f, c));
            let first = arrival(piece.position, square(r + f, c), piece.color);
            let second: Seq<ChessMove> = if !piece.has_moved && in_range(r + 2 * f, c) && v.at(
                square(r + 2 * f, c),
            ) is None {
                seq![ChessMove::OrdinaryMove { from: piece.position, to: square(r + 2 * f, c) }]
            } else {
                Seq::empty()
            };
            lemma_all_joined(first, second, holds);
        }
    }
    lemma_capture_sound(v, piece, -1);
    lemma_capture_sound(v, piece, 1);
    lemma_all_joined(v.pawn_pushes(piece), v.pawn_capture(piece, -1, false), holds);
    lemma_all_joined(
        v.pawn_pushes(piece) + v.pawn_capture(piece, -1, false),
        v.pawn_capture(piece, 1, false),
        holds,
    );
}

/// Every move of a pawn to a square diagonally ahead in normal mode is
/// sound.
pub proof fn lemma_capture_sound(v: BoardView, piece: Piece, offset: int)
    requires
        piece.piece_type == PieceType::Pawn,
    ensures
        forall|j: int|
            0 <= j < v.pawn_capture(piece, offset, false).len() ==> v.sound(
                piece,
                #[trigger] v.pawn_capture(piece, offset, false)[j],
            ),
{
    let r = piece.position.row + piece.color.forward();
    let c = piece.position.col + offset;
    if in_range(r, c) {
        let to = square(r, c);
        match v.at(to) {
            Some(target) => {
                if target.color != piece.color && target.piece_type != PieceType::King {
                    lemma_arrival_sound(v, piece, to);
                }
            },
            None => {},
        }
    }
}

/// Every move that the rule of movement of a piece gives in normal mode is
/// sound.
pub proof fn lemma_piece_moves_sound(v: BoardView, piece: Piece)
    ensures
        forall|j: int|
            0 <= j < v.piece_moves(piece, false).len() ==> v.sound(
                piece,
                #[trigger] v.piece_moves(piece, false)[j],
            ),
{
    if piece.piece_type == PieceType::Pawn {
        lemma_pawn_sound(v, piece);
    } else {
        lemma_rays_sound(v, piece, directions(piece.piece_type).len() as int);
    }
}

/// A sound move of a piece that stands on the board can be carried out.
pub proof fn lemma_sound_applicable(v: BoardView, piece: Piece, m: ChessMove)
    requires
        piece.position.on_board(),
        v.at(piece.position) == Some(piece),
        v.sound(piece, m),
    ensures
        v.applicable(m),
{
}

/// Every castle that the rules give to a king that stands on the board can
/// be carried out.
pub proof fn lemma_castle_applicable(v: BoardView, king: Piece)
    requires
        v.wf(),
        king.position.on_board(),
        v.at(king.position) == Some(king),
        king.piece_type == PieceType::King,
    ensures
        forall|j: int|
            0 <= j < v.castle_moves(king).len() ==> v.applicable(
                #[trigger] v.castle_moves(king)[j],
            ),
{
    if !king.has_moved {
        let row = king.position.row as int;
        assert(king.home_ok());
        assert(king.position.col == 4);
        lemma_castle_with_applicable(v, king, 0);
        lemma_castle_with_applicable(v, king, 7);
        lemma_all_joined(
            v.castle_with(king, 0),
            v.castle_with(king, 7),
            |m: ChessMove| v.applicable(m),
        );
    }
}

/// The castle with one corner, where the rules give it to a king that has
/// not moved, can be carried out.
proof fn lemma_castle_with_applicable(v: BoardView, king: Piece, corner: int)
    requires
        v.wf(),
        king.position.on_board(),
        v.at(king.position) == Some(king),
        king.piece_type == PieceType::King,
        king.position.col == 4,
        corner == 0 || corner == 7,
    ensures
        forall|j: int|
            0 <= j < v.castle_with(king, corner).len() ==> v.applicable(
                #[trigger] v.castle_with(king, corner)[j],
            ),
{
    let row = king.position.row as int;
    let at_corner = square(row, corner);
    assert(at_corner.on_board());
    match v.at(at_corner) {
        Some(rook) => {
            if v.castle_with(king, corner).len() > 0 {
                assert(rook.position == at_corner);
                if corner == 7 {
                    assert(v.clear_between(row, 4, 7));
                    assert(v.at(square(row, 5)) is None);
                    assert(v.at(square(row, 6)) is None);
                } else {
                    assert(v.clear_between(row, 0, 4));
                    assert(v.at(square(row, 3)) is None);
                    assert(v.at(square(row, 2)) is None);
                }
            }
        },
        None => {},
    }
}

/// What holds of each of the first `n` candidates holds of each of those
/// that are kept as safe.
pub proof fn lemma_safe_among_all(
    v: BoardView,
    moves: Seq<ChessMove>,
    n: int,
    ordinary_only: bool,
    holds: spec_fn(ChessMove) -> bool,
)
    requires
        0 <= n <= moves.len(),
        forall|k: int| 0 <= k < n ==> holds(#[trigger] moves[k]),
    ensures
        forall|j: int|
            0 <= j < v.safe_among(moves, n, ordinary_only).len() ==> holds(
                #[trigger] v.safe_among(moves, n, ordinary_only)[j],
            ),
    decreases n,
{
    if n > 0 {
        lemma_safe_among_all(v, moves, n - 1, ordinary_only, holds);
        let kept = v.safe_among(moves, n - 1, ordinary_only);
        let all = v.safe_among(moves, n, ordinary_only);
        assert forall|j: int| 0 <= j < all.len() implies holds(#[trigger] all[j]) by {
            if j < kept.len() {
                assert(all[j] == kept[j]);
            } else {
                assert(all[j] == moves[n - 1]);
            }
        }
    }
}

/// Every legal move of a piece of the board can be carried out.
pub proof fn lemma_moves_of_applicable(v: BoardView, piece: Piece, checked: bool)
    requires
        v.wf(),
        piece.position.on_board(),
        v.at(piece.position) == Some(piece),
    ensures
        checked ==> forall|j: int|
            0 <= j < v.escapes_of(piece).len() ==> v.applicable(#[trigger] v.escapes_of(piece)[j]),
        !checked ==> forall|j: int|
            0 <= j < v.free_moves_of(piece).len() ==> v.applicable(
                #[trigger] v.free_moves_of(piece)[j],
            ),
{
    let holds = |m: ChessMove| v.applicable(m);
    let moves = v.piece_moves(piece, false);
    lemma_piece_moves_sound(v, piece);
    assert forall|j: int| 0 <= j < moves.len() implies holds(#[trigger] moves[j]) by {
        lemma_sound_applicable(v, piece, moves[j]);
    }
    if checked {
        lemma_safe_among_all(v, moves, moves.len() as int, true, holds);
    } else if piece.piece_type == PieceType::King {
        lemma_castle_applicable(v, piece);
        lemma_all_joined(moves, v.castle_moves(piece), holds);
        let all = moves + v.castle_moves(piece);
        lemma_safe_among_all(v, all, all.len() as int, false, holds);
    }
}

/// Every legal move of the first `n` pieces of the side to move can be
/// carried out.
pub proof fn lemma_moves_upto_applicable(v: BoardView, n: int, checked: bool)
    requires
        v.wf(),
        0 <= n <= v.positions(v.turn).len(),
    ensures
        forall|j: int|
            0 <= j < v.moves_upto(n, checked).len() ==> v.applicable(
                #[trigger] v.moves_upto(n, checked)[j],
            ),
    decreases n,
{
    if n > 0 {
        let piece = v.pieces(v.turn)[n - 1];
        assert(v.list_ok(v.turn));
        assert(v.holds(v.positions(v.turn)[n - 1], v.turn));
        lemma_moves_upto_applicable(v, n - 1, checked);
        lemma_moves_of_applicable(v, piece, checked);
        lemma_all_joined(
            v.moves_upto(n - 1, checked),
            if checked {
                v.escapes_of(piece)
            } else {
                v.free_moves_of(piece)
            },
            |m: ChessMove| v.applicable(m),
        );
    }
}

/// Every legal move can be carried out.
pub proof fn lemma_party_moves_applicable(v: BoardView)
    requires
        v.wf(),
    ensures
        forall|j: int|
            0 <= j < v.party_moves().len() ==> v.applicable(#[trigger] v.party_moves()[j]),
{
    assert(v.list_ok(v.turn));
    lemma_moves_upto_applicable(v, v.positions(v.turn).len() as int, v.in_check());
}

/// A move is in a joined list exactly if it is in one of the two lists.
pub proof fn lemma_contains_joined(a: Seq<ChessMove>, b: Seq<ChessMove>, x: ChessMove)
    ensures
        (a + b).contains(x) <==> a.contains(x) || b.contains(x),
{
    if (a + b).contains(x) {
        let j = choose|j: int| 0 <= j < (a + b).len() && (a + b)[j] == x;
        if j < a.len() {
            assert(a[j] == x);
        } else {
            assert(b[j - a.len()] == x);
        }
    }
    if a.contains(x) {
        let j = choose|j: int| 0 <= j < a.len() && a[j] == x;
        assert((a + b)[j] == x);
    }
    if b.contains(x) {
        let j = choose|j: int| 0 <= j < b.len() && b[j] == x;
        assert((a + b)[j + a.len()] == x);
    }
}

/// A move is kept as safe exactly if it is one of the candidates, keeps the
/// king safe and, where only ordinary moves are wanted, is one.
pub proof fn lemma_safe_among_contains(
    v: BoardView,
    moves: Seq<ChessMove>,
    n: int,
    ordinary_only: bool,
    x: ChessMove,
)
    requires
        0 <= n <= moves.len(),
    ensures
        v.safe_among(moves, n, ordinary_only).contains(x) <==> moves.take(n).contains(x)
            && v.keeps_king_safe(x) && (ordinary_only ==> x is OrdinaryMove),
    decreases n,
{
    let kept = v.safe_among(moves, n, ordinary_only);
    if n > 0 {
        lemma_safe_among_contains(v, moves, n - 1, ordinary_only, x);
        let before = v.safe_among(moves, n - 1, ordinary_only);
        let m = moves[n - 1];
        let passes = (!ordinary_only || m is OrdinaryMove) && v.keeps_king_safe(m);
        assert(moves.take(n) =~= moves.take(n - 1).push(m));
        assert(moves.take(n).contains(x) <==> moves.take(n - 1).contains(x) || x == m) by {
            lemma_contains_joined(moves.take(n - 1), seq![m], x);
            assert(moves.take(n - 1).push(m) =~= moves.take(n - 1) + seq![m]);
            if x == m {
                assert(seq![m][0] == x);
            }
        }
        if passes {
            assert(kept == before.push(m));
            assert(kept.contains(x) <==> before.contains(x) || x == m) by {
                lemma_contains_joined(before, seq![m], x);
                assert(before.push(m) =~= before + seq![m]);
                if x == m {
                    assert(seq![m][0] == x);
                }
            }
        }
    } else {
        assert(moves.take(0) =~= Seq::<ChessMove>::empty());
    }
}

/// The rule of movement of a piece never gives a castle.
pub proof fn lemma_piece_moves_no_castle(v: BoardView, piece: Piece, king: Position, rook: Position)
    ensures
        !v.piece_moves(piece, false).contains(ChessMove::Castle { king, rook }),
{
    let x = ChessMove::Castle { king, rook };
    lemma_piece_moves_sound(v, piece);
    if v.piece_moves(piece, false).contains(x) {
        let j = choose|j: int|
            0 <= j < v.piece_moves(piece, false).len() && v.piece_moves(piece, false)[j] == x;
        assert(v.sound(piece, v.piece_moves(piece, false)[j]));
    }
}

/// The castles that the rules give to the king of the side to move are
/// those for which king and rook stand ready.
pub proof fn lemma_castle_moves_contains(
    v: BoardView,
    piece: Piece,
    king: Position,
    rook: Position,
)
    requires
        v.wf(),
        piece.position.on_board(),
        v.at(piece.position) == Some(piece),
        piece.piece_type == PieceType::King,
        piece.color == v.turn,
    ensures
        v.castle_moves(piece).contains(ChessMove::Castle { king, rook }) <==> king
            == piece.position && v.castle_ready(king, rook),
{
    let x = ChessMove::Castle { king, rook };
    let row = piece.position.row as int;
    let left = v.castle_with(piece, 0);
    let right = v.castle_with(piece, 7);
    lemma_contains_joined(left, right, x);
    assert(square(row, 0).on_board() && square(row, 7).on_board());
    if !piece.has_moved {
        assert(piece.home_ok());
        assert(piece.position.col == 4);
    }
    if left.contains(x) {
        let j = choose|j: int| 0 <= j < left.len() && left[j] == x;
        assert(left[j] == x);
    }
    if right.contains(x) {
        let j = choose|j: int| 0 <= j < right.len() && right[j] == x;
        assert(right[j] == x);
    }
    if king == piece.position && v.castle_ready(king, rook) {
        assert(rook == square(row, rook.col as int));
        if rook.col == 0 {
            assert(left[0] == x);
        } else {
            assert(right[0] == x);
        }
    }
}

/// Among the legal moves of the first `n` pieces of the side to move, the
/// castles are those of a king that is not in check, that stands ready with
/// its rook, and that is safe where it lands.
pub proof fn lemma_moves_upto_castle(
    v: BoardView,
    n: int,
    checked: bool,
    king: Position,
    rook: Position,
)
    requires
        v.wf(),
        0 <= n <= v.positions(v.turn).len(),
    ensures
        v.moves_upto(n, checked).contains(ChessMove::Castle { king, rook }) <==> !checked
            && v.positions(v.turn).take(n).contains(king) && v.castle_ready(king, rook)
            && v.keeps_king_safe(ChessMove::Castle { king, rook }),
    decreases n,
{
    let x = ChessMove::Castle { king, rook };
    let list = v.positions(v.turn);
    assert(v.list_ok(v.turn));
    if n > 0 {
        let piece = v.pieces(v.turn)[n - 1];
        let here = list[n - 1];
        assert(v.holds(here, v.turn));
        assert(piece.position == here);
        lemma_moves_upto_castle(v, n - 1, checked, king, rook);
        let own = if checked {
            v.escapes_of(piece)
        } else {
            v.free_moves_of(piece)
        };
        lemma_contains_joined(v.moves_upto(n - 1, checked), own, x);
        assert(list.take(n) =~= list.take(n - 1).push(here));
        assert(list.take(n).contains(king) <==> list.take(n - 1).contains(king) || king == here)
            by {
            lemma_positions_joined(list.take(n - 1), here, king);
        }
        let moves = v.piece_moves(piece, false);
        lemma_piece_moves_no_castle(v, piece, king, rook);
        if checked {
            lemma_safe_among_contains(v, moves, moves.len() as int, true, x);
        } else if piece.piece_type == PieceType::King {
            let all = moves + v.castle_moves(piece);
            lemma_safe_among_contains(v, all, all.len() as int, false, x);
            assert(all.take(all.len() as int) =~= all);
            lemma_contains_joined(moves, v.castle_moves(piece), x);
            lemma_castle_moves_contains(v, piece, king, rook);
        }
        if king == here && v.castle_ready(king, rook) {
            assert(piece.piece_type == PieceType::King);
        }
    } else {
        assert(list.take(0) =~= Seq::<Position>::empty());
    }
}

/// A square is in a list with one more entry exactly if it is in the list
/// or is that entry.
proof fn lemma_positions_joined(list: Seq<Position>, last: Position, x: Position)
    ensures
        list.push(last).contains(x) <==> list.contains(x) || x == last,
{
    let more = list.push(last);
    if more.contains(x) {
        let j = choose|j: int| 0 <= j < more.len() && more[j] == x;
        if j < list.len() {
            assert(list[j] == x);
        }
    }
    if list.contains(x) {
        let j = choose|j: int| 0 <= j < list.len() && list[j] == x;
        assert(more[j] == x);
    }
    if x == last {
        assert(more[list.len() as int] == x);
    }
}

/// A castle is legal exactly if the king of the side to move is not in
/// check, stands ready with the rook, and is not attacked where it lands.
pub proof fn lemma_castle_legal(v: BoardView, king: Position, rook: Position)
    requires
        v.wf(),
    ensures
        v.party_moves().contains(ChessMove::Castle { king, rook }) <==> !v.in_check()
            && v.castle_ready(king, rook) && v.keeps_king_safe(ChessMove::Castle { king, rook }),
{
    let list = v.positions(v.turn);
    assert(v.list_ok(v.turn));
    lemma_moves_upto_castle(v, list.len() as int, v.in_check(), king, rook);
    assert(list.take(list.len() as int) =~= list);
    if v.castle_ready(king, rook) {
        assert(v.holds(king, v.turn));
    }
}

/// Where a square between the king and the rook is occupied, or the king
/// or the rook has moved, their castle is not among the legal moves.
pub proof fn lemma_castling_legality(v: BoardView, king: Position, rook: Position)
    requires
        v.wf(),
        v.castle_barred(king, rook),
    ensures
        !v.party_moves().contains(ChessMove::Castle { king, rook }),
{
    lemma_castle_legal(v, king, rook);
    if v.castle_ready(king, rook) {
        let lo = if rook.col < king.col { rook.col as int } else { king.col as int };
        let hi = if rook.col < king.col { king.col as int } else { rook.col as int };
        assert(v.clear_between(king.row as int, lo, hi));
        let c = choose|c: int|
            (king.col < c < rook.col || rook.col < c < king.col) && (#[trigger] v.at(
                square(king.row as int, c),
            )) is Some;
        assert(v.at(square(king.row as int, c)) is None);
    }
}

/// One step further along a direction is the same square as counted from
/// the next square on.
pub proof fn lemma_along_shift(r: int, c: int, dr: int, dc: int, k: int)
    ensures
        along(r, c, dr, dc, k + 1) == along(r + dr, c + dc, dr, dc, k),
        along(r, c, dr, dc, 1) == square(r + dr, c + dc),
{
    assert((k + 1) * dr == k * dr + dr) by (nonlinear_arith);
    assert((k + 1) * dc == k * dc + dc) by (nonlinear_arith);
}

/// A path of `k` steps is open exactly if its first square lies on the
/// board and, where there are more steps, is empty and the rest of the path
/// is open from there.
proof fn lemma_open_path_shift(v: BoardView, r: int, c: int, dr: int, dc: int, k: int)
    requires
        k >= 1,
    ensures
        v.open_path(r, c, dr, dc, k + 1) <==> in_range(r + dr, c + dc) && v.at(
            square(r + dr, c + dc),
        ) is None && v.open_path(r + dr, c + dc, dr, dc, k),
        v.open_path(r, c, dr, dc, 1) <==> in_range(r + dr, c + dc),
{
    lemma_along_shift(r, c, dr, dc, 0);
    lemma_along_shift(r, c, dr, dc, k);
    assert(1 * dr == dr && 1 * dc == dc);
    let first = in_range(r + dr, c + dc) && v.at(square(r + dr, c + dc)) is None;
    if v.open_path(r, c, dr, dc, k + 1) {
        assert(in_range(r + 1 * dr, c + 1 * dc) && v.at(along(r, c, dr, dc, 1)) is None);
        assert forall|j: int| 1 <= j < k implies in_range(r + dr + j * dr, c + dc + j * dc) && (
        #[trigger] v.at(along(r + dr, c + dc, dr, dc, j))) is None by {
            lemma_along_shift(r, c, dr, dc, j);
            assert((j + 1) * dr == j * dr + dr) by (nonlinear_arith);
            assert((j + 1) * dc == j * dc + dc) by (nonlinear_arith);
            assert(v.at(along(r, c, dr, dc, j + 1)) is None);
        }
        assert((k + 1) * dr == k * dr + dr) by (nonlinear_arith);
        assert((k + 1) * dc == k * dc + dc) by (nonlinear_arith);
    }
    if first && v.open_path(r + dr, c + dc, dr, dc, k) {
        assert((k + 1) * dr == k * dr + dr) by (nonlinear_arith);
        assert((k + 1) * dc == k * dc + dc) by (nonlinear_arith);
        assert forall|j: int| 1 <= j < k + 1 implies in_range(r + j * dr, c + j * dc) && (
        #[trigger] v.at(along(r, c, dr, dc, j))) is None by {
            if j > 1 {
                lemma_along_shift(r, c, dr, dc, j - 1);
                assert((j - 1 + 1) * dr == (j - 1) * dr + dr) by (nonlinear_arith);
                assert((j - 1 + 1) * dc == (j - 1) * dc + dc) by (nonlinear_arith);
                assert(v.at(along(r + dr, c + dc, dr, dc, j - 1)) is None);
            }
        }
    }
}

/// The moves along a ray are those to the squares that an open path of at
/// most `steps` steps reaches and that the piece may come to stand on.
pub proof fn lemma_ray_contains(
    v: BoardView,
    piece: Piece,
    r: int,
    c: int,
    dr: int,
    dc: int,
    steps: nat,
    attack: bool,
    to: Position,
)
    ensures
        v.ray(piece, r, c, dr, dc, steps, attack).contains(
            ChessMove::OrdinaryMove { from: piece.position, to },
        ) <==> exists|k: int|
            1 <= k <= steps && #[trigger] v.arrives(piece, r, c, dr, dc, k, attack, to),
    decreases steps,
{
    let x = ChessMove::OrdinaryMove { from: piece.position, to };
    let all = v.ray(piece, r, c, dr, dc, steps, attack);
    lemma_along_shift(r, c, dr, dc, 0);
    if steps == 0 {
    } else if !in_range(r + dr, c + dc) {
        assert forall|k: int| 1 <= k <= steps implies !#[trigger] v.arrives(
            piece,
            r,
            c,
            dr,
            dc,
            k,
            attack,
            to,
        ) by {
            if k > 1 {
                lemma_open_path_shift(v, r, c, dr, dc, k - 1);
            } else {
                lemma_open_path_shift(v, r, c, dr, dc, 1);
            }
        }
    } else {
        let first = square(r + dr, c + dc);
        let step = seq![ChessMove::OrdinaryMove { from: piece.position, to: first }];
        lemma_open_path_shift(v, r, c, dr, dc, 1);
        match v.at(first) {
            Some(target) => {
                assert forall|k: int| 2 <= k <= steps implies !#[trigger] v.arrives(
                    piece,
                    r,
                    c,
                    dr,
                    dc,
                    k,
                    attack,
                    to,
                ) by {
                    lemma_open_path_shift(v, r, c, dr, dc, k - 1);
                }
                if all.contains(x) {
                    let j = choose|j: int| 0 <= j < all.len() && all[j] == x;
                    assert(all[j] == x);
                    assert(v.arrives(piece, r, c, dr, dc, 1, attack, to));
                }
                if v.arrives(piece, r, c, dr, dc, 1, attack, to) {
                    assert(all[0] == x);
                }
            },
            None => {
                let rest = v.ray(piece, r + dr, c + dc, dr, dc, (steps - 1) as nat, attack);
                let head: Seq<ChessMove> = if attack { Seq::empty() } else { step };
                lemma_ray_contains(
                    v,
                    piece,
                    r + dr,
                    c + dc,
                    dr,
                    dc,
                    (steps - 1) as nat,
                    attack,
                    to,
                );
                lemma_contains_joined(head, rest, x);
                if head.contains(x) {
                    let j = choose|j: int| 0 <= j < head.len() && head[j] == x;
                    assert(head[j] == x);
                    assert(v.arrives(piece, r, c, dr, dc, 1, attack, to));
                }
                if rest.contains(x) {
                    let k = choose|k: int|
                        1 <= k <= steps - 1 && #[trigger] v.arrives(
                            piece,
                            r + dr,
                            c + dc,
                            dr,
                            dc,
                            k,
                            attack,
                            to,
                        );
                    lemma_open_path_shift(v, r, c, dr, dc, k);
                    lemma_along_shift(r, c, dr, dc, k);
                    assert(v.arrives(piece, r, c, dr, dc, k + 1, attack, to));
                }
                if exists|k: int|
                    1 <= k <= steps && #[trigger] v.arrives(piece, r, c, dr, dc, k, attack, to) {
                    let k = choose|k: int|
                        1 <= k <= steps && #[trigger] v.arrives(
                            piece,
                            r,
                            c,
                            dr,
                            dc,
                            k,
                            attack,
                            to,
                        );
                    if k == 1 {
                        assert(to == first);
                        assert(!attack);
                        assert(step[0] == x);
                    } else {
                        lemma_open_path_shift(v, r, c, dr, dc, k - 1);
                        lemma_along_shift(r, c, dr, dc, k - 1);
                        assert(v.arrives(piece, r + dr, c + dc, dr, dc, k - 1, attack, to));
                    }
                }
            },
        }
    }
}

/// The moves along the first `n` directions of a piece are the moves
/// along one of them.
proof fn lemma_rays_contains(v: BoardView, piece: Piece, attack: bool, n: int, x: ChessMove)
    requires
        0 <= n <= directions(piece.piece_type).len(),
    ensures
        v.rays(piece, attack, n).contains(x) <==> exists|i: int|
            0 <= i < n && #[trigger] v.ray_of(piece, i, attack).contains(x),
    decreases n,
{
    if n > 0 {
        lemma_rays_contains(v, piece, attack, n - 1, x);
        lemma_contains_joined(v.rays(piece, attack, n - 1), v.ray_of(piece, n - 1, attack), x);
    }
}

/// The rule of movement of a rook, bishop, queen, knight or king: the piece
/// goes from its square along one of its directions, over empty squares and
/// no further than its reach, to a square on which it may come to stand.
/// In normal mode that is an empty square or one that holds an enemy piece
/// that is no king; in attack mode it is the square of the enemy king.
pub proof fn lemma_piece_move_rule(v: BoardView, piece: Piece, attack: bool, to: Position)
    requires
        piece.piece_type != PieceType::Pawn,
    ensures
        v.piece_moves(piece, attack).contains(
            ChessMove::OrdinaryMove { from: piece.position, to },
        ) <==> exists|i: int, k: int|
            0 <= i < directions(piece.piece_type).len() && 1 <= k <= reach(piece.piece_type)
                && #[trigger] v.arrives(
                piece,
                piece.position.row as int,
                piece.position.col as int,
                directions(piece.piece_type)[i].0 as int,
                directions(piece.piece_type)[i].1 as int,
                k,
                attack,
                to,
            ),
{
    let x = ChessMove::OrdinaryMove { from: piece.position, to };
    let dirs = directions(piece.piece_type);
    let r = piece.position.row as int;
    let c = piece.position.col as int;
    lemma_rays_contains(v, piece, attack, dirs.len() as int, x);
    assert forall|i: int| 0 <= i < dirs.len() implies (v.ray_of(piece, i, attack).contains(x)
        <==> exists|k: int|
        1 <= k <= reach(piece.piece_type) && #[trigger] v.arrives(
            piece,
            r,
            c,
            dirs[i].0 as int,
            dirs[i].1 as int,
            k,
            attack,
            to,
        )) by {
        lemma_ray_contains(
            v,
            piece,
            r,
            c,
            dirs[i].0 as int,
            dirs[i].1 as int,
            reach(piece.piece_type),
            attack,
            to,
        );
    }
    if v.piece_moves(piece, attack).contains(x) {
        let i = choose|i: int|
            0 <= i < dirs.len() && #[trigger] v.ray_of(piece, i, attack).contains(x);
        let k = choose|k: int|
            1 <= k <= reach(piece.piece_type) && #[trigger] v.arrives(
                piece,
                r,
                c,
                dirs[i].0 as int,
                dirs[i].1 as int,
                k,
                attack,
                to,
            );
        assert(v.arrives(piece, r, c, dirs[i].0 as int, dirs[i].1 as int, k, attack, to));
    }
    if exists|i: int, k: int|
        0 <= i < dirs.len() && 1 <= k <= reach(piece.piece_type) && #[trigger] v.arrives(
            piece,
            r,
            c,
            dirs[i].0 as int,
            dirs[i].1 as int,
            k,
            attack,
            to,
        ) {
        let (i, k) = choose|i: int, k: int|
            0 <= i < dirs.len() && 1 <= k <= reach(piece.piece_type) && #[trigger] v.arrives(
                piece,
                r,
                c,
                dirs[i].0 as int,
                dirs[i].1 as int,
                k,
                attack,
                to,
            );
        assert(v.ray_of(piece, i, attack).contains(x));
    }
}

/// Whether `m` is an ordinary move from `from`.
pub open spec fn starts_at(m: ChessMove, from: Position) -> bool {
    m matches ChessMove::OrdinaryMove { from: f, .. } && f == from
}

/// Every move along a ray is an ordinary move of the piece.
proof fn lemma_ray_shape(
    v: BoardView,
    piece: Piece,
    r: int,
    c: int,
    dr: int,
    dc: int,
    steps: nat,
    attack: bool,
)
    ensures
        forall|j: int|
            0 <= j < v.ray(piece, r, c, dr, dc, steps, attack).len() ==> starts_at(
                #[trigger] v.ray(piece, r, c, dr, dc, steps, attack)[j],
                piece.position,
            ),
    decreases steps,
{
    if steps == 0 || !in_range(r + dr, c + dc) {
    } else {
        let to = square(r + dr, c + dc);
        let step = seq![ChessMove::OrdinaryMove { from: piece.position, to }];
        match v.at(to) {
            Some(target) => {},
            None => {
                let rest = v.ray(piece, r + dr, c + dc, dr, dc, (steps - 1) as nat, attack);
                lemma_ray_shape(v, piece, r + dr, c + dc, dr, dc, (steps - 1) as nat, attack);
                assert(starts_at(step[0], piece.position));
                lemma_all_joined(
                    if attack {
                        Seq::empty()
                    } else {
                        step
                    },
                    rest,
                    |m: ChessMove| starts_at(m, piece.position),
                );
            },
        }
    }
}

/// Every move along the first `n` directions of a piece is an ordinary
/// move of the piece.
proof fn lemma_rays_shape(v: BoardView, piece: Piece, attack: bool, n: int)
    ensures
        forall|j: int|
            0 <= j < v.rays(piece, attack, n).len() ==> starts_at(
                #[trigger] v.rays(piece, attack, n)[j],
                piece.position,
            ),
    decreases n,
{
    if n > 0 {
        lemma_rays_shape(v, piece, attack, n - 1);
        let d = directions(piece.piece_type)[n - 1];
        lemma_ray_shape(
            v,
            piece,
            piece.position.row as int,
            piece.position.col as int,
            d.0 as int,
            d.1 as int,
            reach(piece.piece_type),
            attack,
        );
        lemma_all_joined(
            v.rays(piece, attack, n - 1),
            v.ray_of(piece, n - 1, attack),
            |m: ChessMove| starts_at(m, piece.position),
        );
    }
}

/// When a piece attacks a square: exactly when it bears on it.
pub proof fn lemma_attack_rule(v: BoardView, piece: Piece, target: Position)
    ensures
        v.attacks(piece, target) <==> v.bears_on(piece, target),
{
    let moves = v.piece_moves(piece, true);
    let x = ChessMove::OrdinaryMove { from: piece.position, to: target };
    if piece.piece_type == PieceType::Pawn {
        let left = v.pawn_capture(piece, -1, true);
        let right = v.pawn_capture(piece, 1, true);
        assert(moves =~= left + right);
        lemma_contains_joined(left, right, x);
        if v.attacks(piece, target) {
            let j = choose|j: int| 0 <= j < moves.len() && lands_on(#[trigger] moves[j], target);
            if j < left.len() {
                assert(moves[j] == left[j]);
            } else {
                assert(moves[j] == right[j - left.len()]);
            }
        }
        if v.bears_on(piece, target) {
            if target.col == piece.position.col - 1 {
                assert(left[0] == x);
                assert(moves[0] == x);
            } else {
                assert(right[0] == x);
                assert(moves[left.len() as int] == x);
            }
        }
    } else {
        lemma_rays_shape(v, piece, true, directions(piece.piece_type).len() as int);
        lemma_piece_move_rule(v, piece, true, target);
        if v.attacks(piece, target) {
            let j = choose|j: int| 0 <= j < moves.len() && lands_on(#[trigger] moves[j], target);
            assert(starts_at(moves[j], piece.position));
            assert(moves[j] == x);
        }
        if moves.contains(x) {
            let j = choose|j: int| 0 <= j < moves.len() && moves[j] == x;
            assert(lands_on(moves[j], target));
        }
    }
}

/// When the side to move is in check: exactly when a piece of the other
/// side bears on the square of its king.
pub proof fn lemma_check_rule(v: BoardView)
    requires
        v.wf(),
    ensures
        v.in_check() <==> exists|q: Position|
            q.on_board() && #[trigger] v.holds(q, v.turn.opposite()) && v.bears_on(
                v.at(q).unwrap(),
                v.king_square(v.turn),
            ),
{
    let enemy = v.turn.opposite();
    let list = v.positions(enemy);
    let king = v.king_square(v.turn);
    assert(v.list_ok(enemy));
    if v.in_check() {
        let i = choose|i: int|
            0 <= i < list.len() && v.attacks(#[trigger] v.pieces(enemy)[i], king);
        lemma_attack_rule(v, v.pieces(enemy)[i], king);
        assert(v.holds(list[i], enemy));
    }
    if exists|q: Position|
        q.on_board() && #[trigger] v.holds(q, enemy) && v.bears_on(v.at(q).unwrap(), king) {
        let q = choose|q: Position|
            q.on_board() && #[trigger] v.holds(q, enemy) && v.bears_on(v.at(q).unwrap(), king);
        assert(list.contains(q));
        let i = choose|i: int| 0 <= i < list.len() && list[i] == q;
        lemma_attack_rule(v, v.pieces(enemy)[i], king);
        assert(v.attacks(v.pieces(enemy)[i], king));
    }
}

/// The legal moves of one piece are the moves that the rules allow it.
proof fn lemma_moves_of_contains(v: BoardView, piece: Piece, m: ChessMove, checked: bool)
    ensures
        (if checked {
            v.escapes_of(piece)
        } else {
            v.free_moves_of(piece)
        }).contains(m) <==> v.allows(piece, m, checked),
{
    let moves = v.piece_moves(piece, false);
    if checked {
        lemma_safe_among_contains(v, moves, moves.len() as int, true, m);
        assert(moves.take(moves.len() as int) =~= moves);
    } else if piece.piece_type == PieceType::King {
        let all = moves + v.castle_moves(piece);
        lemma_safe_among_contains(v, all, all.len() as int, false, m);
        assert(all.take(all.len() as int) =~= all);
        lemma_contains_joined(moves, v.castle_moves(piece), m);
    }
}

/// The legal moves of the first `n` pieces of the side to move are the
/// moves that the rules allow to one of them.
proof fn lemma_moves_upto_contains(v: BoardView, n: int, checked: bool, m: ChessMove)
    requires
        0 <= n <= v.positions(v.turn).len(),
    ensures
        v.moves_upto(n, checked).contains(m) <==> exists|i: int|
            0 <= i < n && v.allows(#[trigger] v.pieces(v.turn)[i], m, checked),
    decreases n,
{
    if n > 0 {
        let piece = v.pieces(v.turn)[n - 1];
        lemma_moves_upto_contains(v, n - 1, checked, m);
        lemma_moves_of_contains(v, piece, m, checked);
        lemma_contains_joined(
            v.moves_upto(n - 1, checked),
            if checked {
                v.escapes_of(piece)
            } else {
                v.free_moves_of(piece)
            },
            m,
        );
    }
}

/// When a move is legal: exactly when the rules allow it to a piece of the
/// side to move. While the king is attacked, these are the ordinary moves
/// after which it is attacked no more. While it is not, they are the moves
/// and castles of the king that do not end on an attacked square, and
/// every move that the rule of movement gives to another piece.
pub proof fn lemma_legal_rule(v: BoardView, m: ChessMove)
    requires
        v.wf(),
    ensures
        v.party_moves().contains(m) <==> exists|q: Position|
            q.on_board() && #[trigger] v.holds(q, v.turn) && v.allows(
                v.at(q).unwrap(),
                m,
                v.in_check(),
            ),
{
    let list = v.positions(v.turn);
    let checked = v.in_check();
    assert(v.list_ok(v.turn));
    lemma_moves_upto_contains(v, list.len() as int, checked, m);
    if v.party_moves().contains(m) {
        let i = choose|i: int|
            0 <= i < list.len() && v.allows(#[trigger] v.pieces(v.turn)[i], m, checked);
        assert(v.holds(list[i], v.turn));
    }
    if exists|q: Position|
        q.on_board() && #[trigger] v.holds(q, v.turn) && v.allows(v.at(q).unwrap(), m, checked) {
        let q = choose|q: Position|
            q.on_board() && #[trigger] v.holds(q, v.turn) && v.allows(
                v.at(q).unwrap(),
                m,
                checked,
            );
        assert(list.contains(q));
        let i = choose|i: int| 0 <= i < list.len() && list[i] == q;
        assert(v.allows(v.pieces(v.turn)[i], m, checked));
    }
}

} // verus!
