//! Why pruning is safe: searched with the full window, a position gets the
//! same score and the same move with alpha-beta pruning as without it.

use vstd::prelude::*;
use crate::pieces::ChessMove;
use crate::board_view::BoardView;
use crate::evaluation::lemma_evaluate_bounded;
use crate::minimax::Minimax;

verus! {

/// Whether a score is one that the evaluation can give.
pub open spec fn plausible_score(score: i32) -> bool {
    -200000 < score < 200000
}

/// Whether two states of a search are at the same node for the same side:
/// they may differ in alpha and beta only.
pub open spec fn same_node(a: Minimax, b: Minimax) -> bool {
    a.depth == b.depth && a.max_depth == b.max_depth && a.color == b.color
}

/// The score from which a node starts: the worst there is for the side
/// that chooses.
pub open spec fn worst_for(maximizing: bool) -> i32 {
    if maximizing {
        i32::MIN
    } else {
        i32::MAX
    }
}

/// A search without a cache returns a score that the evaluation can give,
/// and a move exactly where it did not stop at once.
pub proof fn lemma_search_plausible(
    state: Minimax,
    board: BoardView,
    moves: Seq<ChessMove>,
    prune: bool,
)
    ensures
        plausible_score(state.plain_search(board, moves, prune).0),
        state.plain_search(board, moves, prune).1 is None <==> state.stops(moves),
    decreases state.max_depth - state.depth, 0nat, 0nat,
{
    if state.stops(moves) {
        lemma_evaluate_bounded(board.grid, state.color);
    } else {
        lemma_scan_plausible(
            state.deeper(),
            board,
            moves,
            0,
            worst_for(board.turn == state.color),
            None,
            prune,
        );
    }
}

/// The scan of a node that has a move returns a plausible score and a move.
pub proof fn lemma_scan_plausible(
    state: Minimax,
    board: BoardView,
    moves: Seq<ChessMove>,
    i: int,
    best_score: i32,
    best_move: Option<ChessMove>,
    prune: bool,
)
    requires
        state.depth <= state.max_depth,
        0 <= i <= moves.len(),
        0 < moves.len(),
        i == 0 ==> best_score == worst_for(board.turn == state.color),
        i > 0 ==> plausible_score(best_score) && best_move is Some,
    ensures
        plausible_score(state.plain_scan(board, moves, i, best_score, best_move, prune).0),
        state.plain_scan(board, moves, i, best_score, best_move, prune).1 is Some,
    decreases state.max_depth - state.depth, 1nat, moves.len() - i,
{
    if i < moves.len() {
        let next = board.apply(moves[i]);
        let child_board = next.with_state(next.status());
        let child = state.plain_search(child_board, next.party_moves(), prune);
        lemma_search_plausible(state, child_board, next.party_moves(), prune);
        if board.turn == state.color {
            let better = child.0 > best_score;
            let score = if better { child.0 } else { best_score };
            let found = if better { Some(moves[i]) } else { best_move };
            let alpha = if score >= state.alpha { score } else { state.alpha };
            if !(prune && alpha >= state.beta) {
                lemma_scan_plausible(
                    Minimax { alpha, ..state },
                    board,
                    moves,
                    i + 1,
                    score,
                    found,
                    prune,
                );
            }
        } else {
            let better = child.0 < best_score;
            let score = if better { child.0 } else { best_score };
            let found = if better { Some(moves[i]) } else { best_move };
            let beta = if state.beta > score { score } else { state.beta };
            if !(prune && state.alpha >= beta) {
                lemma_scan_plausible(
                    Minimax { beta, ..state },
                    board,
                    moves,
                    i + 1,
                    score,
                    found,
                    prune,
                );
            }
        }
    }
}

/// Without pruning, alpha and beta have no part in what a search returns.
pub proof fn lemma_full_search_ignores_window(
    a: Minimax,
    b: Minimax,
    board: BoardView,
    moves: Seq<ChessMove>,
)
    requires
        same_node(a, b),
    ensures
        a.plain_search(board, moves, false) == b.plain_search(board, moves, false),
    decreases a.max_depth - a.depth, 0nat, 0nat,
{
    if !a.stops(moves) {
        lemma_full_scan_ignores_window(
            a.deeper(),
            b.deeper(),
            board,
            moves,
            0,
            worst_for(board.turn == a.color),
            None,
        );
    }
}

/// Without pruning, alpha and beta have no part in what a scan returns.
pub proof fn lemma_full_scan_ignores_window(
    a: Minimax,
    b: Minimax,
    board: BoardView,
    moves: Seq<ChessMove>,
    i: int,
    best_score: i32,
    best_move: Option<ChessMove>,
)
    requires
        same_node(a, b),
    ensures
        a.plain_scan(board, moves, i, best_score, best_move, false) == b.plain_scan(
            board,
            moves,
            i,
            best_score,
            best_move,
            false,
        ),
    decreases a.max_depth - a.depth, 1nat, moves.len() - i,
{
    if !(i < 0 || i >= moves.len() || a.depth > a.max_depth) {
        let next = board.apply(moves[i]);
        let child_board = next.with_state(next.status());
        lemma_full_search_ignores_window(a, b, child_board, next.party_moves());
        let child = a.plain_search(child_board, next.party_moves(), false);
        if board.turn == a.color {
            let better = child.0 > best_score;
            let score = if better { child.0 } else { best_score };
            let found = if better { Some(moves[i]) } else { best_move };
            lemma_full_scan_ignores_window(
                Minimax { alpha: if score >= a.alpha { score } else { a.alpha }, ..a },
                Minimax { alpha: if score >= b.alpha { score } else { b.alpha }, ..b },
                board,
                moves,
                i + 1,
                score,
                found,
            );
        } else {
            let better = child.0 < best_score;
            let score = if better { child.0 } else { best_score };
            let found = if better { Some(moves[i]) } else { best_move };
            lemma_full_scan_ignores_window(
                Minimax { beta: if a.beta > score { score } else { a.beta }, ..a },
                Minimax { beta: if b.beta > score { score } else { b.beta }, ..b },
                board,
                moves,
                i + 1,
                score,
                found,
            );
        }
    }
}

/// How the result of a search with pruning stands to the result of the
/// search without, for a window from `alpha` to `beta`: where the full
/// score lies inside the window the two results are the same, and where it
/// lies at or beyond one end, the pruned score lies at or beyond that end.
pub open spec fn within_window(
    pruned: (i32, Option<ChessMove>),
    full: (i32, Option<ChessMove>),
    alpha: i32,
    beta: i32,
) -> bool {
    &&& full.0 <= alpha ==> pruned.0 <= alpha
    &&& full.0 >= beta ==> pruned.0 >= beta
    &&& alpha < full.0 < beta ==> pruned == full
}

/// What ties the pruned scan of a node to the full scan after the same
/// number of moves, where the node began with the window from `alpha` to
/// `beta`: the window of the pruned scan has moved with its best score and
/// is still open, and the two best scores and moves agree wherever the full
/// one has entered the window.
pub open spec fn in_step(
    pruned: Minimax,
    best_pruned: (i32, Option<ChessMove>),
    best_full: (i32, Option<ChessMove>),
    alpha: i32,
    beta: i32,
    maximizing: bool,
) -> bool {
    &&& pruned.alpha < pruned.beta
    &&& if maximizing {
        &&& pruned.beta == beta
        &&& pruned.alpha == (if best_pruned.0 >= alpha {
            best_pruned.0
        } else {
            alpha
        })
        &&& best_full.0 > alpha ==> best_pruned == best_full
        &&& best_full.0 <= alpha ==> best_pruned.0 <= alpha
    } else {
        &&& pruned.alpha == alpha
        &&& pruned.beta == (if beta > best_pruned.0 {
            best_pruned.0
        } else {
            beta
        })
        &&& best_full.0 < beta ==> best_pruned == best_full
        &&& best_full.0 >= beta ==> best_pruned.0 >= beta
    }
}

/// Pruning within a window: the search with pruning returns what the
/// search without returns wherever the full score lies inside the window,
/// and a score at or beyond the same end of the window wherever it does
/// not.
pub proof fn lemma_pruned_search(state: Minimax, board: BoardView, moves: Seq<ChessMove>)
    requires
        state.alpha < state.beta,
    ensures
        within_window(
            state.plain_search(board, moves, true),
            state.plain_search(board, moves, false),
            state.alpha,
            state.beta,
        ),
    decreases state.max_depth - state.depth, 0nat, 0nat,
{
    if !state.stops(moves) {
        let maximizing = board.turn == state.color;
        let start = (worst_for(maximizing), None::<ChessMove>);
        lemma_pruned_scan(
            state.deeper(),
            state.deeper(),
            board,
            moves,
            0,
            start,
            start,
            state.alpha,
            state.beta,
        );
    }
}

/// Pruning within a window, from move number `i` of a node on.
pub proof fn lemma_pruned_scan(
    pruned: Minimax,
    full: Minimax,
    board: BoardView,
    moves: Seq<ChessMove>,
    i: int,
    best_pruned: (i32, Option<ChessMove>),
    best_full: (i32, Option<ChessMove>),
    alpha: i32,
    beta: i32,
)
    requires
        same_node(pruned, full),
        pruned.depth <= pruned.max_depth,
        0 <= i <= moves.len(),
        in_step(pruned, best_pruned, best_full, alpha, beta, board.turn == pruned.color),
    ensures
        within_window(
            pruned.plain_scan(board, moves, i, best_pruned.0, best_pruned.1, true),
            full.plain_scan(board, moves, i, best_full.0, best_full.1, false),
            alpha,
            beta,
        ),
    decreases pruned.max_depth - pruned.depth, 1nat, moves.len() - i,
{
    if i < moves.len() {
        let next = board.apply(moves[i]);
        let child_board = next.with_state(next.status());
        let replies = next.party_moves();
        let child_pruned = pruned.plain_search(child_board, replies, true);
        let child_full = full.plain_search(child_board, replies, false);
        lemma_pruned_search(pruned, child_board, replies);
        lemma_full_search_ignores_window(pruned, full, child_board, replies);
        if board.turn == pruned.color {
            let better_p = child_pruned.0 > best_pruned.0;
            let next_pruned = if better_p {
                (child_pruned.0, Some(moves[i]))
            } else {
                best_pruned
            };
            let better_f = child_full.0 > best_full.0;
            let next_full = if better_f {
                (child_full.0, Some(moves[i]))
            } else {
                best_full
            };
            let alpha_p = if next_pruned.0 >= pruned.alpha {
                next_pruned.0
            } else {
                pruned.alpha
            };
            let alpha_f = if next_full.0 >= full.alpha {
                next_full.0
            } else {
                full.alpha
            };
            let full_on = Minimax { alpha: alpha_f, ..full };
            if alpha_p >= pruned.beta {
                // the pruned scan ends here; the full one goes on and can
                // only rise
                lemma_full_scan_rises(full_on, board, moves, i + 1, next_full.0, next_full.1);
            } else {
                lemma_pruned_scan(
                    Minimax { alpha: alpha_p, ..pruned },
                    full_on,
                    board,
                    moves,
                    i + 1,
                    next_pruned,
                    next_full,
                    alpha,
                    beta,
                );
            }
        } else {
            let better_p = child_pruned.0 < best_pruned.0;
            let next_pruned = if better_p {
                (child_pruned.0, Some(moves[i]))
            } else {
                best_pruned
            };
            let better_f = child_full.0 < best_full.0;
            let next_full = if better_f {
                (child_full.0, Some(moves[i]))
            } else {
                best_full
            };
            let beta_p = if pruned.beta > next_pruned.0 {
                next_pruned.0
            } else {
                pruned.beta
            };
            let beta_f = if full.beta > next_full.0 {
                next_full.0
            } else {
                full.beta
            };
            let full_on = Minimax { beta: beta_f, ..full };
            if pruned.alpha >= beta_p {
                lemma_full_scan_rises(full_on, board, moves, i + 1, next_full.0, next_full.1);
            } else {
                lemma_pruned_scan(
                    Minimax { beta: beta_p, ..pruned },
                    full_on,
                    board,
                    moves,
                    i + 1,
                    next_pruned,
                    next_full,
                    alpha,
                    beta,
                );
            }
        }
    }
}

/// Without pruning, the best score of a node only gets better for the
/// side that chooses as more moves are tried.
pub proof fn lemma_full_scan_rises(
    state: Minimax,
    board: BoardView,
    moves: Seq<ChessMove>,
    i: int,
    best_score: i32,
    best_move: Option<ChessMove>,
)
    ensures
        board.turn == state.color ==> state.plain_scan(
            board,
            moves,
            i,
            best_score,
            best_move,
            false,
        ).0 >= best_score,
        board.turn != state.color ==> state.plain_scan(
            board,
            moves,
            i,
            best_score,
            best_move,
            false,
        ).0 <= best_score,
    decreases moves.len() - i,
{
    if !(i < 0 || i >= moves.len() || state.depth > state.max_depth) {
        let next = board.apply(moves[i]);
        let child = state.plain_search(next.with_state(next.status()), next.party_moves(), false);
        if board.turn == state.color {
            let better = child.0 > best_score;
            let score = if better { child.0 } else { best_score };
            let found = if better { Some(moves[i]) } else { best_move };
            let alpha = if score >= state.alpha { score } else { state.alpha };
            lemma_full_scan_rises(Minimax { alpha, ..state }, board, moves, i + 1, score, found);
        } else {
            let better = child.0 < best_score;
            let score = if better { child.0 } else { best_score };
            let found = if better { Some(moves[i]) } else { best_move };
            let beta = if state.beta > score { score } else { state.beta };
            lemma_full_scan_rises(Minimax { beta, ..state }, board, moves, i + 1, score, found);
        }
    }
}

/// Alpha-beta equivalence: searched with the full window, a position gets
/// the same score and the same move with pruning as without it.
pub proof fn lemma_pruning_keeps_result(state: Minimax, board: BoardView, moves: Seq<ChessMove>)
    requires
        state.alpha == i32::MIN,
        state.beta == i32::MAX,
    ensures
        state.plain_search(board, moves, true) == state.plain_search(board, moves, false),
{
    lemma_pruned_search(state, board, moves);
    lemma_search_plausible(state, board, moves, false);
}

} // verus!
