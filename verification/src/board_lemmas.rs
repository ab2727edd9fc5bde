//! What a move keeps: the proofs that carrying out a move leaves a board
//! well formed.

use vstd::prelude::*;
use crate::pieces::{square, ChessMove, Color, Piece, PieceType, Position};
use crate::board_view::{initial_piece, two_rows, without, BoardView};

verus! {

/// Taking out the one entry `p` of a list without repetitions keeps every
/// other entry, and nothing else.
pub proof fn lemma_without(list: Seq<Position>, p: Position)
    requires
        list.no_duplicates(),
        list.contains(p),
    ensures
        without(list, p).no_duplicates(),
        without(list, p).len() == list.len() - 1,
        forall|q: Position| #[trigger]
            without(list, p).contains(q) <==> list.contains(q) && q != p,
{
    let i = list.index_of(p);
    let rest = without(list, p);
    assert(0 <= i < list.len() && list[i] == p);
    assert forall|q: Position| #[trigger] rest.contains(q) <==> list.contains(q) && q != p by {
        if rest.contains(q) {
            let j = choose|j: int| 0 <= j < rest.len() && rest[j] == q;
            if j < i {
                assert(list[j] == q);
            } else {
                assert(list[j + 1] == q);
            }
        }
        if list.contains(q) && q != p {
            let j = choose|j: int| 0 <= j < list.len() && list[j] == q;
            if j < i {
                assert(rest[j] == q);
            } else {
                assert(rest[j - 1] == q);
            }
        }
    }
    assert forall|a: int, b: int|
        0 <= a < rest.len() && 0 <= b < rest.len() && a != b implies rest[a] != rest[b] by {
        let a0 = if a < i { a } else { a + 1 };
        let b0 = if b < i { b } else { b + 1 };
        assert(rest[a] == list[a0] && rest[b] == list[b0]);
    }
}

/// Adding a new entry at the end of a list without repetitions.
pub proof fn lemma_push_new(list: Seq<Position>, p: Position)
    requires
        list.no_duplicates(),
        !list.contains(p),
    ensures
        list.push(p).no_duplicates(),
        forall|q: Position| #[trigger] list.push(p).contains(q) <==> list.contains(q) || q == p,
{
    let more = list.push(p);
    assert forall|q: Position| #[trigger] more.contains(q) <==> list.contains(q) || q == p by {
        if more.contains(q) {
            let j = choose|j: int| 0 <= j < more.len() && more[j] == q;
            if j < list.len() {
                assert(list[j] == q);
            }
        }
        if list.contains(q) {
            let j = choose|j: int| 0 <= j < list.len() && list[j] == q;
            assert(more[j] == q);
        }
        if q == p {
            assert(more[list.len() as int] == q);
        }
    }
    assert forall|a: int, b: int|
        0 <= a < more.len() && 0 <= b < more.len() && a != b implies more[a] != more[b] by {
        if a < list.len() && b < list.len() {
        } else if a < list.len() {
            assert(list[a] == more[a]);
        } else {
            assert(list[b] == more[b]);
        }
    }
}

/// Putting something on one square changes that square and no other.
pub proof fn lemma_put(v: BoardView, p: Position, x: Option<Piece>)
    requires
        v.grid.len() == 8,
        forall|r: int| 0 <= r < 8 ==> (#[trigger] v.grid[r]).len() == 8,
        p.on_board(),
    ensures
        v.put(p, x).grid.len() == 8,
        forall|r: int| 0 <= r < 8 ==> (#[trigger] v.put(p, x).grid[r]).len() == 8,
        v.put(p, x).at(p) == x,
        forall|q: Position| q.on_board() && q != p ==> #[trigger] v.put(p, x).at(q) == v.at(q),
        v.put(p, x).white_positions == v.white_positions,
        v.put(p, x).black_positions == v.black_positions,
        v.put(p, x).turn == v.turn,
        v.put(p, x).last_move == v.last_move,
        v.put(p, x).party_state == v.party_state,
{
    assert(v.grid[p.row as int].len() == 8);
}

/// The conditions under which the piece on `from` may go to `to` and become
/// of kind `kind`: both squares lie on the board and differ, a piece stands
/// on `from`, no king is taken, and a king stays a king and nothing else
/// becomes one.
pub open spec fn may_relocate(v: BoardView, from: Position, to: Position, kind: PieceType) -> bool {
    &&& from.on_board() && to.on_board() && from != to
    &&& v.at(from) is Some
    &&& !(v.at(to) matches Some(victim) && victim.piece_type == PieceType::King)
    &&& (v.at(from).unwrap().piece_type == PieceType::King) == (kind == PieceType::King)
}

/// What the squares hold after a relocation.
pub proof fn lemma_relocate_grid(v: BoardView, from: Position, to: Position, kind: PieceType)
    requires
        v.wf(),
        may_relocate(v, from, to, kind),
    ensures
        v.relocate(from, to, kind).grid.len() == 8,
        forall|r: int| 0 <= r < 8 ==> (#[trigger] v.relocate(from, to, kind).grid[r]).len() == 8,
        v.relocate(from, to, kind).at(from) is None,
        v.relocate(from, to, kind).at(to) == Some(
            Piece {
                piece_type: kind,
                position: to,
                color: v.at(from).unwrap().color,
                has_moved: true,
            },
        ),
        forall|q: Position|
            q.on_board() && q != from && q != to ==> #[trigger] v.relocate(from, to, kind).at(q)
                == v.at(q),
        v.relocate(from, to, kind).turn == v.turn,
        v.relocate(from, to, kind).last_move == v.last_move,
        v.relocate(from, to, kind).party_state == v.party_state,
{
    let piece = v.at(from).unwrap();
    let moved = Piece { piece_type: kind, position: to, color: piece.color, has_moved: true };
    let cleared = v.cleared(to);
    let listed = cleared.with_positions(
        piece.color,
        without(cleared.positions(piece.color), from).push(to),
    );
    assert(listed.grid == v.grid);
    lemma_put(listed, to, Some(moved));
    lemma_put(listed.put(to, Some(moved)), from, None);
    assert forall|q: Position| q.on_board() && q != from && q != to implies #[trigger] v.relocate(
        from,
        to,
        kind,
    ).at(q) == v.at(q) by {
        assert(listed.put(to, Some(moved)).at(q) == listed.at(q));
    }
}

/// Striking square `p` from the list of its holder leaves every list
/// without repetitions, naming what it named before but `p`.
pub proof fn lemma_cleared(v: BoardView, p: Position, c: Color)
    requires
        v.wf(),
        p.on_board(),
    ensures
        v.cleared(p).grid == v.grid,
        v.cleared(p).positions(c).len() <= v.positions(c).len(),
        v.cleared(p).positions(c).no_duplicates(),
        forall|q: Position| #[trigger]
            v.cleared(p).positions(c).contains(q) <==> v.positions(c).contains(q) && q != p,
{
    assert(v.list_ok(c));
    if v.holds(p, c) {
        assert(v.positions(c).contains(p));
        lemma_without(v.positions(c), p);
    } else {
        assert(v.cleared(p).positions(c) == v.positions(c));
        if v.positions(c).contains(p) {
            let j = choose|j: int| 0 <= j < v.positions(c).len() && v.positions(c)[j] == p;
            assert(v.holds(v.positions(c)[j], c));
        }
    }
}

/// Which squares the list of side `c` names after a relocation: the landing
/// square if the piece is of that side, and every square it named before but
/// the two of the move.
pub proof fn lemma_relocate_list(
    v: BoardView,
    from: Position,
    to: Position,
    kind: PieceType,
    c: Color,
)
    requires
        v.wf(),
        may_relocate(v, from, to, kind),
    ensures
        v.relocate(from, to, kind).positions(c).len() <= v.positions(c).len(),
        v.relocate(from, to, kind).positions(c).no_duplicates(),
        forall|q: Position| #[trigger]
            v.relocate(from, to, kind).positions(c).contains(q) <==> (q == to && v.at(
                from,
            ).unwrap().color == c) || (q != to && q != from && v.positions(c).contains(q)),
{
    let piece = v.at(from).unwrap();
    let cleared = v.cleared(to);
    let after = v.relocate(from, to, kind);
    let l1 = cleared.positions(c);
    lemma_cleared(v, to, c);
    if piece.color == c {
        assert(v.holds(from, c));
        assert(v.positions(c).contains(from));
        assert(l1.contains(from));
        lemma_without(l1, from);
        let l2 = without(l1, from);
        assert(!l2.contains(to));
        lemma_push_new(l2, to);
        assert(after.positions(c) == l2.push(to));
    } else {
        assert(after.positions(c) == l1);
        assert(!v.holds(from, c));
        if l1.contains(from) {
            let j = choose|j: int| 0 <= j < v.positions(c).len() && v.positions(c)[j] == from;
            assert(v.holds(v.positions(c)[j], c));
        }
    }
}

/// A relocation leaves the list of side `c` in agreement with the grid.
proof fn lemma_relocate_list_ok(
    v: BoardView,
    from: Position,
    to: Position,
    kind: PieceType,
    c: Color,
)
    requires
        v.wf(),
        may_relocate(v, from, to, kind),
    ensures
        v.relocate(from, to, kind).list_ok(c),
{
    let after = v.relocate(from, to, kind);
    let list = after.positions(c);
    lemma_relocate_grid(v, from, to, kind);
    lemma_relocate_list(v, from, to, kind, c);
    assert(v.list_ok(c));
    assert forall|i: int| 0 <= i < list.len() implies (#[trigger] list[i]).on_board()
        && after.holds(list[i], c) by {
        let q = list[i];
        assert(list.contains(q));
        if q != to {
            let j = choose|j: int| 0 <= j < v.positions(c).len() && v.positions(c)[j] == q;
            assert(v.holds(v.positions(c)[j], c));
            assert(after.at(q) == v.at(q));
        }
    }
    assert forall|p: Position| p.on_board() && #[trigger] after.holds(p, c) implies list.contains(
        p,
    ) by {
        if p != to {
            assert(p != from);
            assert(after.at(p) == v.at(p));
            assert(v.holds(p, c));
        }
    }
}

/// A relocation leaves side `c` with exactly one king.
proof fn lemma_relocate_king(v: BoardView, from: Position, to: Position, kind: PieceType, c: Color)
    requires
        v.wf(),
        may_relocate(v, from, to, kind),
    ensures
        exists|k: Position| v.relocate(from, to, kind).sole_king(k, c),
{
    let after = v.relocate(from, to, kind);
    let piece = v.at(from).unwrap();
    lemma_relocate_grid(v, from, to, kind);
    let k = choose|k: Position| v.sole_king(k, c);
    assert(v.sole_king(k, c));
    if piece.piece_type == PieceType::King && piece.color == c {
        assert(v.king_at(from, c));
        assert(k == from);
        assert forall|q: Position| q.on_board() && #[trigger] after.king_at(q, c) implies q
            == to by {
            if q != to {
                assert(q != from);
                assert(after.at(q) == v.at(q));
                assert(v.king_at(q, c));
            }
        }
        assert(after.sole_king(to, c));
    } else {
        assert(!v.king_at(from, c));
        assert(!v.king_at(to, c));
        assert(after.at(k) == v.at(k));
        assert forall|q: Position| q.on_board() && #[trigger] after.king_at(q, c) implies q
            == k by {
            assert(q != from);
            assert(q != to);
            assert(after.at(q) == v.at(q));
            assert(v.king_at(q, c));
        }
        assert(after.sole_king(k, c));
    }
}

/// A relocation leaves a well-formed board well formed.
pub proof fn lemma_relocate_wf(v: BoardView, from: Position, to: Position, kind: PieceType)
    requires
        v.wf(),
        may_relocate(v, from, to, kind),
    ensures
        v.relocate(from, to, kind).wf(),
{
    let after = v.relocate(from, to, kind);
    lemma_relocate_grid(v, from, to, kind);
    lemma_relocate_list_ok(v, from, to, kind, Color::White);
    lemma_relocate_list_ok(v, from, to, kind, Color::Black);
    lemma_relocate_king(v, from, to, kind, Color::White);
    lemma_relocate_king(v, from, to, kind, Color::Black);
    assert forall|p: Position| p.on_board() implies ((#[trigger] after.at(p)) matches Some(pc)
        ==> pc.position == p && pc.home_ok()) by {
        if p != to && p != from {
            assert(after.at(p) == v.at(p));
        }
    }
}

/// Carrying out a move that can be carried out leaves a well-formed board
/// well formed, whoever is to move afterwards.
pub proof fn lemma_apply_wf(v: BoardView, m: ChessMove)
    requires
        v.wf(),
        v.applicable(m),
    ensures
        v.moved(m).wf(),
        v.apply(m).wf(),
        v.apply(m).flipped().wf(),
{
    match m {
        ChessMove::OrdinaryMove { from, to } => {
            lemma_relocate_wf(v, from, to, v.at(from).unwrap().piece_type);
        },
        ChessMove::Promotion { from, to, piece_type } => {
            lemma_relocate_wf(v, from, to, piece_type);
        },
        ChessMove::Castle { king, rook } => {
            let rook_to = BoardView::castle_rook_target(rook);
            let king_to = BoardView::castle_king_target(king, rook);
            let rook_kind = v.at(rook).unwrap().piece_type;
            let king_kind = v.at(king).unwrap().piece_type;
            lemma_relocate_grid(v, rook, rook_to, rook_kind);
            lemma_relocate_wf(v, rook, rook_to, rook_kind);
            let rooked = v.relocate(rook, rook_to, rook_kind);
            assert(rooked.at(king) == v.at(king));
            assert(rooked.at(king_to) == v.at(king_to));
            lemma_relocate_wf(rooked, king, king_to, king_kind);
        },
    }
    let done = v.moved(m);
    assert(BoardView { last_move: Some(m), ..done }.grid == done.grid);
    lemma_wf_of_pieces(done, v.apply(m));
    lemma_wf_of_pieces(done, v.apply(m).flipped());
}

/// Well-formedness is a matter of the grid and the two lists alone.
pub proof fn lemma_wf_of_pieces(a: BoardView, b: BoardView)
    requires
        a.wf(),
        a.grid == b.grid,
        a.white_positions == b.white_positions,
        a.black_positions == b.black_positions,
    ensures
        b.wf(),
{
    assert forall|p: Position| p.on_board() implies ((#[trigger] b.at(p)) matches Some(pc)
        ==> pc.position == p && pc.home_ok()) by {
        assert(b.at(p) == a.at(p));
    }
    lemma_same_pieces_list(a, b, Color::White);
    lemma_same_pieces_list(a, b, Color::Black);
    lemma_same_pieces_king(a, b, Color::White);
    lemma_same_pieces_king(a, b, Color::Black);
}

/// The lists of a board agree with its grid if they do on a board with the
/// same grid and lists.
proof fn lemma_same_pieces_list(a: BoardView, b: BoardView, c: Color)
    requires
        a.list_ok(c),
        a.grid == b.grid,
        a.white_positions == b.white_positions,
        a.black_positions == b.black_positions,
    ensures
        b.list_ok(c),
{
    assert(b.positions(c) == a.positions(c));
    assert forall|i: int| 0 <= i < b.positions(c).len() implies (#[trigger] b.positions(
        c,
    )[i]).on_board() && b.holds(b.positions(c)[i], c) by {
        assert(a.holds(a.positions(c)[i], c));
    }
    assert forall|p: Position| p.on_board() && #[trigger] b.holds(p, c) implies b.positions(
        c,
    ).contains(p) by {
        assert(a.holds(p, c));
    }
}

/// A side has its one king on a board if it has on a board with the same
/// grid.
proof fn lemma_same_pieces_king(a: BoardView, b: BoardView, c: Color)
    requires
        exists|k: Position| a.sole_king(k, c),
        a.grid == b.grid,
    ensures
        exists|k: Position| b.sole_king(k, c),
{
    let k = choose|k: Position| a.sole_king(k, c);
    assert(b.king_at(k, c));
    assert forall|q: Position| q.on_board() && #[trigger] b.king_at(q, c) implies q == k by {
        assert(a.king_at(q, c));
    }
    assert(b.sole_king(k, c));
}

/// The lists of the board on which a game begins agree with its grid.
proof fn lemma_initial_list(c: Color)
    ensures
        BoardView::initial().list_ok(c),
{
    let v = BoardView::initial();
    let list = v.positions(c);
    let first: int = if c == Color::White { 0 } else { 6 };
    assert(list == two_rows(first, 16));
    assert forall|i: int| 0 <= i < list.len() implies (#[trigger] list[i]).on_board() && v.holds(
        list[i],
        c,
    ) by {
        assert(list[i] == square(first + i / 8, i % 8));
    }
    assert forall|p: Position| p.on_board() && #[trigger] v.holds(p, c) implies list.contains(
        p,
    ) by {
        let i = (p.row - first) * 8 + p.col;
        assert(0 <= i < 16);
        assert(list[i] == p);
    }
    assert forall|i: int, j: int|
        0 <= i < list.len() && 0 <= j < list.len() && i != j implies list[i] != list[j] by {
        assert(list[i] == square(first + i / 8, i % 8));
        assert(list[j] == square(first + j / 8, j % 8));
    }
}

/// On the board on which a game begins each side has its one king, in
/// column 4 of its back row.
proof fn lemma_initial_king(c: Color)
    ensures
        BoardView::initial().sole_king(square(c.back_row(), 4), c),
{
    let v = BoardView::initial();
    let k = square(c.back_row(), 4);
    assert(v.at(k) == initial_piece(c.back_row(), 4));
    assert forall|q: Position| q.on_board() && #[trigger] v.king_at(q, c) implies q == k by {
        assert(v.at(q) == initial_piece(q.row as int, q.col as int));
    }
}

/// The board on which a game begins is well formed.
pub proof fn lemma_initial_wf()
    ensures
        BoardView::initial().wf(),
{
    let v = BoardView::initial();
    lemma_initial_list(Color::White);
    lemma_initial_list(Color::Black);
    lemma_initial_king(Color::White);
    lemma_initial_king(Color::Black);
    assert forall|p: Position| p.on_board() implies ((#[trigger] v.at(p)) matches Some(pc)
        ==> pc.position == p && pc.home_ok()) by {
        assert(v.at(p) == initial_piece(p.row as int, p.col as int));
    }
}

/// On a well-formed board each side has exactly one king: it stands on
/// the king square of its side, and no other square holds a king of that
/// side.
pub proof fn lemma_one_king_per_side(v: BoardView, c: Color)
    requires
        v.wf(),
    ensures
        v.king_square(c).on_board(),
        v.king_at(v.king_square(c), c),
        forall|q: Position| q.on_board() && #[trigger] v.king_at(q, c) ==> q == v.king_square(c),
{
    let k = choose|k: Position| v.sole_king(k, c);
    assert(v.sole_king(k, c));
}

/// A relocation leaves every piece that it does not take or move as it
/// was, and the piece that it moves has moved.
proof fn lemma_relocate_flags(v: BoardView, from: Position, to: Position, kind: PieceType)
    requires
        v.wf(),
        may_relocate(v, from, to, kind),
    ensures
        forall|q: Position|
            q.on_board() ==> ((#[trigger] v.relocate(from, to, kind).at(q)) matches Some(pc)
                ==> pc.has_moved || v.at(q) == Some(pc)),
{
    lemma_relocate_grid(v, from, to, kind);
    let after = v.relocate(from, to, kind);
    assert forall|q: Position| q.on_board() implies ((#[trigger] after.at(q)) matches Some(pc)
        ==> pc.has_moved || v.at(q) == Some(pc)) by {
        if q != from && q != to {
            assert(after.at(q) == v.at(q));
        }
    }
}

/// What every move does besides moving its pieces: the turn passes to the
/// other side, the move is remembered, the status stays, and no piece
/// loses the mark of having moved: a piece that has not moved after the
/// move stood on its square, unmoved, before.
pub proof fn lemma_apply_effects(v: BoardView, m: ChessMove)
    requires
        v.wf(),
        v.applicable(m),
    ensures
        v.apply(m).turn == v.turn.opposite(),
        v.apply(m).last_move == Some(m),
        v.apply(m).party_state == v.party_state,
        forall|q: Position|
            q.on_board() ==> ((#[trigger] v.apply(m).at(q)) matches Some(pc) ==> pc.has_moved
                || v.at(q) == Some(pc)),
{
    let done = v.moved(m);
    match m {
        ChessMove::OrdinaryMove { from, to } => {
            let kind = v.at(from).unwrap().piece_type;
            lemma_relocate_grid(v, from, to, kind);
            lemma_relocate_flags(v, from, to, kind);
        },
        ChessMove::Promotion { from, to, piece_type } => {
            lemma_relocate_grid(v, from, to, piece_type);
            lemma_relocate_flags(v, from, to, piece_type);
        },
        ChessMove::Castle { king, rook } => {
            let rook_to = BoardView::castle_rook_target(rook);
            let king_to = BoardView::castle_king_target(king, rook);
            let rook_kind = v.at(rook).unwrap().piece_type;
            let king_kind = v.at(king).unwrap().piece_type;
            lemma_relocate_grid(v, rook, rook_to, rook_kind);
            lemma_relocate_wf(v, rook, rook_to, rook_kind);
            lemma_relocate_flags(v, rook, rook_to, rook_kind);
            let rooked = v.relocate(rook, rook_to, rook_kind);
            assert(rooked.at(king) == v.at(king));
            assert(rooked.at(king_to) == v.at(king_to));
            lemma_relocate_grid(rooked, king, king_to, king_kind);
            lemma_relocate_flags(rooked, king, king_to, king_kind);
            assert forall|q: Position| q.on_board() implies ((#[trigger] done.at(q)) matches Some(
                pc,
            ) ==> pc.has_moved || v.at(q) == Some(pc)) by {
                assert(done.at(q) matches Some(pc) ==> pc.has_moved || rooked.at(q) == Some(pc));
            }
        },
    }
    assert forall|q: Position| q.on_board() implies ((#[trigger] v.apply(m).at(q)) matches Some(
        pc,
    ) ==> pc.has_moved || v.at(q) == Some(pc)) by {
        assert(v.apply(m).at(q) == done.at(q));
    }
}

} // verus!
