//! Why the cache is safe: as long as the fingerprints tell apart the
//! positions at which a search stops, the search over a cache returns what
//! the search without one returns.

use vstd::prelude::*;
use crate::pieces::{ChessMove, Color};
use crate::board_view::BoardView;
use crate::evaluation::evaluate;
use crate::minimax::Minimax;
use crate::pruning::lemma_pruning_keeps_result;
use crate::transposition_table::lookup;
use crate::zobrist::ZobristKeys;

verus! {

/// How many moves deep a search goes on from a node.
pub open spec fn depth_left(state: Minimax) -> nat {
    if state.depth >= state.max_depth {
        0
    } else {
        (state.max_depth - state.depth) as nat
    }
}

/// The positions at which a search of `left` moves depth stops: the
/// position itself where the depth is used up or there is no move, else the
/// positions at which the searches of its moves stop.
pub open spec fn leaves(left: nat, board: BoardView, moves: Seq<ChessMove>) -> Set<BoardView>
    decreases left, 0nat, 0nat,
{
    if left == 0 || moves.len() == 0 {
        set![board]
    } else {
        leaves_from((left - 1) as nat, board, moves, 0)
    }
}

/// The positions at which the searches of the moves from number `i` on
/// stop; each search goes `left` moves deep.
pub open spec fn leaves_from(
    left: nat,
    board: BoardView,
    moves: Seq<ChessMove>,
    i: int,
) -> Set<BoardView>
    decreases left, 1nat, moves.len() - i,
{
    if i < 0 || i >= moves.len() {
        Set::empty()
    } else {
        let next = board.apply(moves[i]);
        leaves(left, next.with_state(next.status()), next.party_moves()).union(
            leaves_from(left, board, moves, i + 1),
        )
    }
}

/// The fingerprint of a position.
pub open spec fn print_of(keys: ZobristKeys, board: BoardView) -> u64 {
    keys.fingerprint(board.grid, board.turn)
}

/// Whether the cache holds, for each of the positions `among`, no score
/// or the score that the evaluation gives it.
pub open spec fn faithful(
    keys: ZobristKeys,
    scores: Map<u64, i32>,
    color: Color,
    among: Set<BoardView>,
) -> bool {
    forall|b: BoardView| #[trigger]
        among.contains(b) ==> (lookup(scores, print_of(keys, b)) matches Some(s) ==> s
            == evaluate(b.grid, color) as i32)
}

/// Whether the fingerprints tell the positions `among` apart as far as
/// their scores differ: two of them with the same fingerprint have the same
/// score.
pub open spec fn discerning(keys: ZobristKeys, color: Color, among: Set<BoardView>) -> bool {
    forall|a: BoardView, b: BoardView|
        #![trigger among.contains(a), among.contains(b)]
        among.contains(a) && among.contains(b) && print_of(keys, a) == print_of(keys, b)
            ==> evaluate(a.grid, color) == evaluate(b.grid, color)
}

/// The search over a cache returns the score and the move of the search
/// without one, and leaves the cache faithful, where the cache was
/// faithful and the fingerprints are discerning among positions that
/// include those at which the search stops.
pub proof fn lemma_cached_search(
    state: Minimax,
    board: BoardView,
    moves: Seq<ChessMove>,
    keys: ZobristKeys,
    scores: Map<u64, i32>,
    among: Set<BoardView>,
)
    requires
        leaves(depth_left(state), board, moves).subset_of(among),
        faithful(keys, scores, state.color, among),
        discerning(keys, state.color, among),
    ensures
        state.search(board, moves, keys, scores).score == state.plain_search(board, moves, true).0,
        state.search(board, moves, keys, scores).best_move == state.plain_search(
            board,
            moves,
            true,
        ).1,
        faithful(keys, state.search(board, moves, keys, scores).scores, state.color, among),
    decreases state.max_depth - state.depth, 0nat, 0nat,
{
    if state.stops(moves) {
        let hash = print_of(keys, board);
        assert(leaves(depth_left(state), board, moves).contains(board));
        assert(among.contains(board));
        if lookup(scores, hash) is None {
            let score = evaluate(board.grid, state.color) as i32;
            let after = scores.insert(hash, score);
            assert forall|b: BoardView| #[trigger] among.contains(b) implies (lookup(
                after,
                print_of(keys, b),
            ) matches Some(s) ==> s == evaluate(b.grid, state.color) as i32) by {
                if print_of(keys, b) == hash {
                    assert(among.contains(board) && among.contains(b));
                } else {
                    assert(lookup(after, print_of(keys, b)) == lookup(scores, print_of(keys, b)));
                }
            }
        }
    } else {
        let start = if board.turn == state.color {
            i32::MIN
        } else {
            i32::MAX
        };
        lemma_cached_scan(state.deeper(), board, moves, 0, start, None, keys, scores, among);
    }
}

/// The same for the moves of a node from number `i` on.
pub proof fn lemma_cached_scan(
    state: Minimax,
    board: BoardView,
    moves: Seq<ChessMove>,
    i: int,
    best_score: i32,
    best_move: Option<ChessMove>,
    keys: ZobristKeys,
    scores: Map<u64, i32>,
    among: Set<BoardView>,
)
    requires
        state.depth <= state.max_depth,
        0 <= i <= moves.len(),
        leaves_from(depth_left(state), board, moves, i).subset_of(among),
        faithful(keys, scores, state.color, among),
        discerning(keys, state.color, among),
    ensures
        state.scan(board, moves, i, best_score, best_move, keys, scores).score
            == state.plain_scan(board, moves, i, best_score, best_move, true).0,
        state.scan(board, moves, i, best_score, best_move, keys, scores).best_move
            == state.plain_scan(board, moves, i, best_score, best_move, true).1,
        faithful(
            keys,
            state.scan(board, moves, i, best_score, best_move, keys, scores).scores,
            state.color,
            among,
        ),
    decreases state.max_depth - state.depth, 1nat, moves.len() - i,
{
    if i < moves.len() {
        let left = depth_left(state);
        let next = board.apply(moves[i]);
        let child_board = next.with_state(next.status());
        let replies = next.party_moves();
        let here = leaves(left, child_board, replies);
        let rest = leaves_from(left, board, moves, i + 1);
        assert(leaves_from(left, board, moves, i) == here.union(rest));
        assert(here.subset_of(among)) by {
            assert forall|b: BoardView| here.contains(b) implies among.contains(b) by {
                assert(here.union(rest).contains(b));
            }
        }
        assert(rest.subset_of(among)) by {
            assert forall|b: BoardView| rest.contains(b) implies among.contains(b) by {
                assert(here.union(rest).contains(b));
            }
        }
        lemma_cached_search(state, child_board, replies, keys, scores, among);
        let child = state.search(child_board, replies, keys, scores);
        if board.turn == state.color {
            let better = child.score > best_score;
            let score = if better { child.score } else { best_score };
            let found = if better { Some(moves[i]) } else { best_move };
            let alpha = if score >= state.alpha { score } else { state.alpha };
            if alpha < state.beta {
                lemma_cached_scan(
                    Minimax { alpha, ..state },
                    board,
                    moves,
                    i + 1,
                    score,
                    found,
                    keys,
                    child.scores,
                    among,
                );
            }
        } else {
            let better = child.score < best_score;
            let score = if better { child.score } else { best_score };
            let found = if better { Some(moves[i]) } else { best_move };
            let beta = if state.beta > score { score } else { state.beta };
            if state.alpha < beta {
                lemma_cached_scan(
                    Minimax { beta, ..state },
                    board,
                    moves,
                    i + 1,
                    score,
                    found,
                    keys,
                    child.scores,
                    among,
                );
            }
        }
    }
}

/// Alpha-beta equivalence for the search over a cache: searched with the
/// full window and a faithful cache (an empty one, say), a position gets
/// the score and the move of the full minimax, which prunes nothing and
/// caches nothing, provided the fingerprints are discerning among the
/// positions at which the search stops.
pub proof fn lemma_cached_search_is_minimax(
    state: Minimax,
    board: BoardView,
    moves: Seq<ChessMove>,
    keys: ZobristKeys,
    scores: Map<u64, i32>,
)
    requires
        state.alpha == i32::MIN,
        state.beta == i32::MAX,
        faithful(keys, scores, state.color, leaves(depth_left(state), board, moves)),
        discerning(keys, state.color, leaves(depth_left(state), board, moves)),
    ensures
        state.search(board, moves, keys, scores).score == state.plain_search(
            board,
            moves,
            false,
        ).0,
        state.search(board, moves, keys, scores).best_move == state.plain_search(
            board,
            moves,
            false,
        ).1,
{
    lemma_cached_search(
        state,
        board,
        moves,
        keys,
        scores,
        leaves(depth_left(state), board, moves),
    );
    lemma_pruning_keeps_result(state, board, moves);
}

} // verus!
