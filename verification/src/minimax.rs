//! The search: minimax to a fixed depth with alpha-beta pruning, over a
//! cache of the scores of the positions at which it stops.

use vstd::prelude::*;
use crate::pieces::{ChessMove, Color};
use crate::board_view::BoardView;
use crate::chess_board::ChessBoard;
use crate::evaluation::{eval_function, evaluate};
use crate::move_lemmas::lemma_party_moves_applicable;
use crate::transposition_table::{lookup, TranspositionTable};
use crate::zobrist::{keys_in_order, seeded_key, RandomSource, ZobristKeys};

verus! {

/// The state of a search at one node of the tree.
#[derive(Clone, Copy, Debug)]
pub struct Minimax {
    /// How many moves lie between the root and this node.
    pub depth: usize,
    /// The depth at which positions are scored and searched no further.
    pub max_depth: usize,
    /// The side for which the search is made: scores are from its view.
    pub color: Color,
    /// The score that the searching side is sure of so far.
    pub alpha: i32,
    /// The score that the other side is sure to hold it to so far.
    pub beta: i32,
}

/// What a search gives: a score, the move that leads to it, if one was
/// tried, and the scores that the cache holds afterwards.
pub struct SearchOutcome {
    pub score: i32,
    pub best_move: Option<ChessMove>,
    pub scores: Map<u64, i32>,
}

/// The outcome with the given score, move and cache.
pub open spec fn outcome(
    score: i32,
    best_move: Option<ChessMove>,
    scores: Map<u64, i32>,
) -> SearchOutcome {
    SearchOutcome { score, best_move, scores }
}

/// Whether every stored score is one that the evaluation can give.
pub open spec fn scores_bounded(scores: Map<u64, i32>) -> bool {
    forall|h: u64| scores.contains_key(h) ==> -200000 < #[trigger] scores[h] < 200000
}

/// What holds of a search over a cache of scores that the evaluation can
/// give: the cache stays so, the score returned is such a score, a move is
/// returned unless the search stopped at once, and it is one of `moves`.
pub open spec fn plausible(
    found: SearchOutcome,
    stopped: bool,
    moves: Seq<ChessMove>,
) -> bool {
    &&& scores_bounded(found.scores)
    &&& -200000 < found.score < 200000
    &&& found.best_move is None <==> stopped
    &&& found.best_move matches Some(m) ==> moves.contains(m)
}

/// What holds of the best score and move after `i` moves were tried, over
/// a cache of scores that the evaluation can give.
pub open spec fn plausible_so_far(
    so_far: SearchOutcome,
    i: int,
    maximizing: bool,
    moves: Seq<ChessMove>,
) -> bool {
    &&& scores_bounded(so_far.scores)
    &&& i == 0 ==> so_far.best_move is None && so_far.score == (if maximizing {
        i32::MIN
    } else {
        i32::MAX
    })
    &&& i > 0 ==> so_far.best_move is Some && -200000 < so_far.score < 200000
    &&& so_far.best_move matches Some(m) ==> moves.contains(m)
}

impl Minimax {
    /// Whether the search stops at this node: the depth is used up, or
    /// there is no move.
    pub open spec fn stops(self, moves: Seq<ChessMove>) -> bool {
        self.depth >= self.max_depth || moves.len() == 0
    }

    /// The state one move further down.
    pub open spec fn deeper(self) -> Minimax {
        Minimax { depth: (self.depth + 1) as usize, ..self }
    }

    /// The score of a position at which the search stops: the one that the
    /// cache holds for its fingerprint, or else the one that the evaluation
    /// gives, which is then stored.
    pub open spec fn leaf(
        self,
        board: BoardView,
        keys: ZobristKeys,
        scores: Map<u64, i32>,
    ) -> SearchOutcome {
        let hash = keys.fingerprint(board.grid, board.turn);
        match lookup(scores, hash) {
            Some(score) => SearchOutcome { score, best_move: None, scores },
            None => {
                let score = evaluate(board.grid, self.color) as i32;
                SearchOutcome { score, best_move: None, scores: scores.insert(hash, score) }
            },
        }
    }

    /// The search from a node: at a leaf its score; elsewhere the best of
    /// the moves in their order, the highest score where the searching side
    /// is to move and the lowest where the other side is, the first move
    /// winning among equals, and the rest of the moves left out as soon as
    /// alpha has reached beta.
    pub open spec fn search(
        self,
        board: BoardView,
        moves: Seq<ChessMove>,
        keys: ZobristKeys,
        scores: Map<u64, i32>,
    ) -> SearchOutcome
        decreases self.max_depth - self.depth, 0nat, 0nat,
    {
        if self.stops(moves) {
            self.leaf(board, keys, scores)
        } else {
            self.deeper().scan(
                board,
                moves,
                0,
                if board.turn == self.color {
                    i32::MIN
                } else {
                    i32::MAX
                },
                None,
                keys,
                scores,
            )
        }
    }

    /// The search of the moves from number `i` on, with the best score and
    /// move so far. `self` is the state of the children: its alpha and beta
    /// are the window so far.
    pub open spec fn scan(
        self,
        board: BoardView,
        moves: Seq<ChessMove>,
        i: int,
        best_score: i32,
        best_move: Option<ChessMove>,
        keys: ZobristKeys,
        scores: Map<u64, i32>,
    ) -> SearchOutcome
        decreases self.max_depth - self.depth, 1nat, moves.len() - i,
    {
        if i < 0 || i >= moves.len() || self.depth > self.max_depth {
            SearchOutcome { score: best_score, best_move, scores }
        } else {
            let next = board.apply(moves[i]);
            let child = self.search(
                next.with_state(next.status()),
                next.party_moves(),
                keys,
                scores,
            );
            if board.turn == self.color {
                let better = child.score > best_score;
                let score = if better {
                    child.score
                } else {
                    best_score
                };
                let found = if better {
                    Some(moves[i])
                } else {
                    best_move
                };
                let alpha = if score >= self.alpha {
                    score
                } else {
                    self.alpha
                };
                if alpha >= self.beta {
                    SearchOutcome { score, best_move: found, scores: child.scores }
                } else {
                    Minimax { alpha, ..self }.scan(
                        board,
                        moves,
                        i + 1,
                        score,
                        found,
                        keys,
                        child.scores,
                    )
                }
            } else {
                let better = child.score < best_score;
                let score = if better {
                    child.score
                } else {
                    best_score
                };
                let found = if better {
                    Some(moves[i])
                } else {
                    best_move
                };
                let beta = if self.beta > score {
                    score
                } else {
                    self.beta
                };
                if self.alpha >= beta {
                    SearchOutcome { score, best_move: found, scores: child.scores }
                } else {
                    Minimax { beta, ..self }.scan(
                        board,
                        moves,
                        i + 1,
                        score,
                        found,
                        keys,
                        child.scores,
                    )
                }
            }
        }
    }

    /// The search without a cache: every leaf is scored by the evaluation.
    /// With `prune`, the rest of the moves of a node is left out as soon as
    /// alpha has reached beta; without it, every move is tried.
    pub open spec fn plain_search(
        self,
        board: BoardView,
        moves: Seq<ChessMove>,
        prune: bool,
    ) -> (i32, Option<ChessMove>)
        decreases self.max_depth - self.depth, 0nat, 0nat,
    {
        if self.stops(moves) {
            (evaluate(board.grid, self.color) as i32, None)
        } else {
            self.deeper().plain_scan(
                board,
                moves,
                0,
                if board.turn == self.color {
                    i32::MIN
                } else {
                    i32::MAX
                },
                None,
                prune,
            )
        }
    }

    /// The search without a cache of the moves from number `i` on, with the
    /// best score and move so far.
    pub open spec fn plain_scan(
        self,
        board: BoardView,
        moves: Seq<ChessMove>,
        i: int,
        best_score: i32,
        best_move: Option<ChessMove>,
        prune: bool,
    ) -> (i32, Option<ChessMove>)
        decreases self.max_depth - self.depth, 1nat, moves.len() - i,
    {
        if i < 0 || i >= moves.len() || self.depth > self.max_depth {
            (best_score, best_move)
        } else {
            let next = board.apply(moves[i]);
            let child = self.plain_search(
                next.with_state(next.status()),
                next.party_moves(),
                prune,
            );
            if board.turn == self.color {
                let better = child.0 > best_score;
                let score = if better {
                    child.0
                } else {
                    best_score
                };
                let found = if better {
                    Some(moves[i])
                } else {
                    best_move
                };
                let alpha = if score >= self.alpha {
                    score
                } else {
                    self.alpha
                };
                if prune && alpha >= self.beta {
                    (score, found)
                } else {
                    Minimax { alpha, ..self }.plain_scan(board, moves, i + 1, score, found, prune)
                }
            } else {
                let better = child.0 < best_score;
                let score = if better {
                    child.0
                } else {
                    best_score
                };
                let found = if better {
                    Some(moves[i])
                } else {
                    best_move
                };
                let beta = if self.beta > score {
                    score
                } else {
                    self.beta
                };
                if prune && self.alpha >= beta {
                    (score, found)
                } else {
                    Minimax { beta, ..self }.plain_scan(board, moves, i + 1, score, found, prune)
                }
            }
        }
    }

    /// Searches the moves `chess_moves` of `chess_board` without a cache and
    /// returns the best score with the move that leads to it. At a leaf no
    /// move is returned.
    pub fn minimax(self, chess_board: ChessBoard, chess_moves: Vec<ChessMove>) -> (result: (
        i32,
        Option<ChessMove>,
    ))
        requires
            chess_board.wf(),
            forall|i: int|
                0 <= i < chess_moves.len() ==> chess_board@.applicable(#[trigger] chess_moves[i]),
        ensures
            result == self.plain_search(chess_board@, chess_moves@, true),
        decreases self.max_depth - self.depth,
    {
        let ghost board = chess_board@;
        let ghost goal = self.plain_search(board, chess_moves@, true);
        if self.depth >= self.max_depth || chess_moves.len() == 0 {
            let score = eval_function(&self, chess_board);
            return (score, None);
        }
        let mut state = self;
        state.depth = state.depth + 1;
        let maximizing = chess_board.get_turn() == self.color;
        let mut best_score: i32 = if maximizing { i32::MIN } else { i32::MAX };
        let mut best_move: Option<ChessMove> = None;
        let mut i: usize = 0;
        loop
            invariant_except_break
                chess_board.wf(),
                board == chess_board@,
                forall|k: int|
                    0 <= k < chess_moves.len() ==> board.applicable(#[trigger] chess_moves[k]),
                maximizing == (board.turn == self.color),
                state.depth == self.depth + 1,
                state.depth <= state.max_depth,
                state.max_depth == self.max_depth,
                state.color == self.color,
                i <= chess_moves.len(),
                state.plain_scan(board, chess_moves@, i as int, best_score, best_move, true)
                    == goal,
            ensures
                (best_score, best_move) == goal,
            decreases chess_moves.len() - i,
        {
            if i >= chess_moves.len() {
                break ;
            }
            let chess_move = chess_moves[i];
            let mut chess_board_clone = chess_board.clone();
            let new_all_moves = chess_board_clone.update_board(chess_move);
            proof {
                crate::board_lemmas::lemma_apply_wf(board, chess_move);
                lemma_party_moves_applicable(board.apply(chess_move));
            }
            let (score, _) = state.minimax(chess_board_clone, new_all_moves);
            if maximizing {
                if score > best_score {
                    best_score = score;
                    best_move = Some(chess_move);
                }
                if best_score >= state.alpha {
                    state.alpha = best_score;
                }
            } else {
                if score < best_score {
                    best_score = score;
                    best_move = Some(chess_move);
                }
                if state.beta > best_score {
                    state.beta = best_score;
                }
            }
            if state.alpha >= state.beta {
                break ;
            }
            i += 1;
        }
        (best_score, best_move)
    }

    /// Searches the moves `chess_moves` of `chess_board` and returns the
    /// best score with the move that leads to it. At a leaf no move is
    /// returned. The cache is read and filled at the leaves.
    ///
    /// If every score in the cache is one that the evaluation can give,
    /// then so is the score returned, and a move is returned wherever the
    /// search did not stop at once.
    pub fn minimax_v2(
        self,
        chess_board: ChessBoard,
        chess_moves: Vec<ChessMove>,
        transposition_table: &mut TranspositionTable,
    ) -> (result: (i32, Option<ChessMove>))
        requires
            chess_board.wf(),
            old(transposition_table).wf(),
            forall|i: int|
                0 <= i < chess_moves.len() ==> chess_board@.applicable(#[trigger] chess_moves[i]),
        ensures
            final(transposition_table)@.keys == old(transposition_table)@.keys,
            outcome(result.0, result.1, final(transposition_table)@.scores) == self.search(
                chess_board@,
                chess_moves@,
                old(transposition_table)@.keys,
                old(transposition_table)@.scores,
            ),
            scores_bounded(old(transposition_table)@.scores) ==> plausible(
                outcome(result.0, result.1, final(transposition_table)@.scores),
                self.stops(chess_moves@),
                chess_moves@,
            ),
        decreases self.max_depth - self.depth,
    {
        let ghost board = chess_board@;
        let ghost keys = transposition_table@.keys;
        let ghost first_scores = transposition_table@.scores;
        let ghost goal = self.search(board, chess_moves@, keys, first_scores);
        if self.depth >= self.max_depth || chess_moves.len() == 0 {
            let hash = transposition_table.get_hash(&chess_board);
            match transposition_table.get_from_table(hash) {
                Some(score) => {
                    return (score, None);
                },
                None => {
                    let score = eval_function(&self, chess_board);
                    transposition_table.insert_into_table(hash, score);
                    return (score, None);
                },
            }
        }
        let mut state = self;
        state.depth = state.depth + 1;
        let maximizing = chess_board.get_turn() == self.color;
        let mut best_score: i32 = if maximizing { i32::MIN } else { i32::MAX };
        let mut best_move: Option<ChessMove> = None;
        let mut i: usize = 0;
        loop
            invariant_except_break
                chess_board.wf(),
                board == chess_board@,
                transposition_table.wf(),
                transposition_table@.keys == keys,
                forall|k: int|
                    0 <= k < chess_moves.len() ==> board.applicable(#[trigger] chess_moves[k]),
                maximizing == (board.turn == self.color),
                state.depth == self.depth + 1,
                state.depth <= state.max_depth,
                state.max_depth == self.max_depth,
                state.color == self.color,
                0 < chess_moves.len(),
                i <= chess_moves.len(),
                state.scan(
                    board,
                    chess_moves@,
                    i as int,
                    best_score,
                    best_move,
                    keys,
                    transposition_table@.scores,
                ) == goal,
                scores_bounded(first_scores) ==> plausible_so_far(
                    outcome(best_score, best_move, transposition_table@.scores),
                    i as int,
                    maximizing,
                    chess_moves@,
                ),
            ensures
                transposition_table.wf(),
                transposition_table@.keys == keys,
                outcome(best_score, best_move, transposition_table@.scores) == goal,
                scores_bounded(first_scores) ==> plausible(
                    outcome(best_score, best_move, transposition_table@.scores),
                    false,
                    chess_moves@,
                ),
            decreases chess_moves.len() - i,
        {
            if i >= chess_moves.len() {
                break ;
            }
            let chess_move = chess_moves[i];
            let mut chess_board_clone = chess_board.clone();
            let new_all_moves = chess_board_clone.update_board(chess_move);
            proof {
                crate::board_lemmas::lemma_apply_wf(board, chess_move);
                lemma_party_moves_applicable(board.apply(chess_move));
            }
            let (score, _) = state.minimax_v2(
                chess_board_clone,
                new_all_moves,
                transposition_table,
            );
            if maximizing {
                if score > best_score {
                    best_score = score;
                    best_move = Some(chess_move);
                }
                if best_score >= state.alpha {
                    state.alpha = best_score;
                }
            } else {
                if score < best_score {
                    best_score = score;
                    best_move = Some(chess_move);
                }
                if state.beta > best_score {
                    state.beta = best_score;
                }
            }
            if state.alpha >= state.beta {
                break ;
            }
            i += 1;
        }
        (best_score, best_move)
    }

    /// The best move of the side to move, searched five moves deep with a
    /// cache of its own, whose keys come from a source that the random
    /// generator of the running thread seeds: the move that the search
    /// reports with the keys of that seed. There is a move to return
    /// exactly if there is a legal move, and the move returned is legal.
    pub fn start_minimax_mono(chess_board: &ChessBoard) -> (best: Option<ChessMove>)
        requires
            chess_board.wf(),
        ensures
            exists|seed: u64|
                best == (#[trigger] report_of_seed(
                    chess_board@,
                    chess_board@.party_moves(),
                    seed,
                )).1,
            best is None <==> chess_board@.party_moves().len() == 0,
            best matches Some(m) ==> chess_board@.party_moves().contains(m),
    {
        let all_moves = chess_board.get_party_moves();
        let minimax = Minimax {
            max_depth: 5,
            color: chess_board.get_turn(),
            depth: 0,
            alpha: i32::MIN,
            beta: i32::MAX,
        };
        let mut source = RandomSource::unseeded();
        let ghost seed = choose|seed: u64| source.of_seed(seed);
        proof {
            lemma_keys_of_seed(source, seed);
            lemma_party_moves_applicable(chess_board@);
        }
        let mut transposition_table = TranspositionTable::init_transpo_table(&mut source);
        let (_, m) = minimax.minimax_v2(chess_board.clone(), all_moves, &mut transposition_table);
        assert(m == report_of_seed(chess_board@, chess_board@.party_moves(), seed).1);
        m
    }
}

/// The state in which the search of a position begins: at the root, five
/// moves deep, for side `color`, with the full window.
pub open spec fn root_state(color: Color) -> Minimax {
    Minimax { depth: 0, max_depth: 5, color, alpha: i32::MIN, beta: i32::MAX }
}

/// The keys of the table that is drawn from a source fresh from `seed`.
pub open spec fn keys_of_seed(seed: u64) -> ZobristKeys {
    keys_in_order(Seq::new(769, |i: int| seeded_key(seed, i as nat)))
}

/// What the search of `moves` from the root reports for the side to move,
/// over an empty cache whose keys are those of `seed`: the best score and
/// its move.
pub open spec fn report_of_seed(
    board: BoardView,
    moves: Seq<ChessMove>,
    seed: u64,
) -> (i32, Option<ChessMove>) {
    let found = root_state(board.turn).search(
        board,
        moves,
        keys_of_seed(seed),
        Map::<u64, i32>::empty(),
    );
    (found.score, found.best_move)
}

/// Whether `best` is what the search in chunks decides where the caches
/// of the chunks have the keys of `seeds`, one seed for each chunk: the
/// move of the chosen report, and no move where there is no chunk.
pub open spec fn decided_by(board: BoardView, seeds: Seq<u64>, best: Option<ChessMove>) -> bool {
    let moves = board.party_moves();
    let size = chunk_size(moves.len() as int);
    let reports = Seq::new(
        seeds.len(),
        |k: int| report_of_seed(board, chunk(moves, size, k), seeds[k]),
    );
    &&& moves.len() == 0 ==> seeds.len() == 0 && best is None
    &&& moves.len() > 0 ==> (seeds.len() - 1) * size < moves.len() <= seeds.len() * size
    &&& moves.len() > 0 ==> exists|k: int| chosen(reports, k) && best == reports[k].1
}

/// A source of a seed has the keys of that seed as its next 769.
proof fn lemma_keys_of_seed(source: RandomSource, seed: u64)
    requires
        source.of_seed(seed),
    ensures
        keys_in_order(source.keys(769)) == keys_of_seed(seed),
{
    assert(source.keys(769) =~= Seq::new(769, |i: int| seeded_key(seed, i as nat)));
}

/// The size of the chunks into which `len` moves at the root are cut: a
/// quarter of them, and at least one.
pub open spec fn chunk_size(len: int) -> int {
    if len / 4 > 0 {
        len / 4
    } else {
        1
    }
}

/// Chunk number `k` of `moves` cut into chunks of `size`.
pub open spec fn chunk(moves: Seq<ChessMove>, size: int, k: int) -> Seq<ChessMove> {
    moves.subrange(
        k * size,
        if (k + 1) * size < moves.len() {
            (k + 1) * size
        } else {
            moves.len() as int
        },
    )
}

/// Whether `part` is not empty and each of its moves is one of `all`.
pub open spec fn part_of(part: Seq<ChessMove>, all: Seq<ChessMove>) -> bool {
    &&& part.len() > 0
    &&& forall|j: int| 0 <= j < part.len() ==> all.contains(#[trigger] part[j])
}

/// A copy of a list of moves.
fn copy_moves(moves: &Vec<ChessMove>) -> (copy: Vec<ChessMove>)
    ensures
        copy@ == moves@,
{
    let mut copy: Vec<ChessMove> = Vec::new();
    let mut i: usize = 0;
    while i < moves.len()
        invariant
            i <= moves.len(),
            copy@ == moves@.take(i as int),
        decreases moves.len() - i,
    {
        copy.push(moves[i]);
        i += 1;
        assert(copy@ =~= moves@.take(i as int));
    }
    assert(moves@.take(moves.len() as int) =~= moves@);
    copy
}

/// Whether report number `k` is the one that is chosen: no report has a
/// higher score, and none after it has the same.
pub open spec fn chosen(reports: Seq<(i32, Option<ChessMove>)>, k: int) -> bool {
    &&& 0 <= k < reports.len()
    &&& forall|j: int| 0 <= j < reports.len() ==> (#[trigger] reports[j]).0 <= reports[k].0
    &&& forall|j: int| k < j < reports.len() ==> (#[trigger] reports[j]).0 < reports[k].0
}

impl Minimax {
    /// Cuts the moves at the root into chunks that follow each other, one
    /// for each worker: each chunk holds a quarter of the moves (at least
    /// one), the last one what is left.
    pub fn split_root_moves(all_moves: &Vec<ChessMove>) -> (chunks: Vec<Vec<ChessMove>>)
        ensures
            all_moves.len() == 0 ==> chunks.len() == 0,
            all_moves.len() > 0 ==> (chunks.len() - 1) * chunk_size(all_moves.len() as int)
                < all_moves.len() <= chunks.len() * chunk_size(all_moves.len() as int),
            forall|k: int|
                0 <= k < chunks.len() ==> (#[trigger] chunks[k])@ == chunk(
                    all_moves@,
                    chunk_size(all_moves.len() as int),
                    k,
                ),
            forall|k: int| 0 <= k < chunks.len() ==> part_of(#[trigger] chunks[k]@, all_moves@),
    {
        let len = all_moves.len();
        let size: usize = if len / 4 > 0 { len / 4 } else { 1 };
        let mut chunks: Vec<Vec<ChessMove>> = Vec::new();
        let mut start: usize = 0;
        assert(chunks.len() * size == 0) by (nonlinear_arith)
            requires
                chunks.len() == 0,
        ;
        while start < len
            invariant
                len == all_moves.len(),
                size == chunk_size(len as int),
                0 < size,
                start <= len,
                start <= chunks.len() * size,
                start == len || start == chunks.len() * size,
                start > 0 ==> chunks.len() > 0 && (chunks.len() - 1) * size < start,
                start == 0 ==> chunks.len() == 0,
                forall|k: int|
                    0 <= k < chunks.len() ==> (#[trigger] chunks[k])@ == chunk(
                        all_moves@,
                        size as int,
                        k,
                    ),
                forall|k: int| 0 <= k < chunks.len() ==> part_of(#[trigger] chunks[k]@, all_moves@),
            decreases len - start,
        {
            let ghost k = chunks.len() as int;
            assert((k + 1) * size == k * size + size && (k + 1 - 1) * size == k * size)
                by (nonlinear_arith);
            let end: usize = if len - start < size { len } else { start + size };
            let mut part: Vec<ChessMove> = Vec::new();
            let mut i: usize = start;
            while i < end
                invariant
                    start <= i <= end <= len,
                    len == all_moves.len(),
                    part@ == all_moves@.subrange(start as int, i as int),
                decreases end - i,
            {
                part.push(all_moves[i]);
                i += 1;
                assert(part@ =~= all_moves@.subrange(start as int, i as int));
            }
            assert(part_of(part@, all_moves@)) by {
                assert forall|j: int| 0 <= j < part.len() implies all_moves@.contains(
                    #[trigger] part[j],
                ) by {
                    assert(all_moves@[start + j] == part[j]);
                }
            }
            chunks.push(part);
            start = end;
        }
        chunks
    }

    /// The best move of the side to move, searched five moves deep in
    /// chunks: the legal moves are cut into chunks, each chunk is searched
    /// with a cache of its own, whose keys come from a source that the
    /// random generator of the running thread seeds, and the best report
    /// decides. The chunks are searched one after the other here; each may
    /// as well be given to a worker of its own, for they share nothing.
    /// There is a move to return exactly if there is a legal move, and the
    /// move returned is legal.
    pub fn start_minimax(chess_board: &ChessBoard) -> (best: Option<ChessMove>)
        requires
            chess_board.wf(),
        ensures
            exists|seeds: Seq<u64>| #[trigger] decided_by(chess_board@, seeds, best),
            best is None <==> chess_board@.party_moves().len() == 0,
            best matches Some(m) ==> chess_board@.party_moves().contains(m),
    {
        let all_moves = chess_board.get_party_moves();
        let minimax = Minimax {
            max_depth: 5,
            color: chess_board.get_turn(),
            depth: 0,
            alpha: i32::MIN,
            beta: i32::MAX,
        };
        let chunks = Minimax::split_root_moves(&all_moves);
        let mut reports: Vec<(i32, Option<ChessMove>)> = Vec::new();
        let ghost board = chess_board@;
        let ghost size = chunk_size(all_moves.len() as int);
        let ghost mut seeds: Seq<u64> = Seq::empty();
        proof {
            lemma_party_moves_applicable(chess_board@);
        }
        let mut k: usize = 0;
        while k < chunks.len()
            invariant
                chess_board.wf(),
                board == chess_board@,
                all_moves@ == board.party_moves(),
                size == chunk_size(all_moves.len() as int),
                minimax == root_state(board.turn),
                forall|j: int|
                    0 <= j < all_moves.len() ==> board.applicable(#[trigger] all_moves[j]),
                forall|i: int| 0 <= i < chunks.len() ==> part_of(#[trigger] chunks[i]@, all_moves@),
                forall|i: int|
                    0 <= i < chunks.len() ==> (#[trigger] chunks[i])@ == chunk(
                        all_moves@,
                        size,
                        i,
                    ),
                k <= chunks.len(),
                reports.len() == k,
                seeds.len() == k,
                forall|i: int|
                    0 <= i < k ==> #[trigger] reports[i] == report_of_seed(
                        board,
                        chunk(all_moves@, size, i),
                        seeds[i],
                    ),
                forall|i: int|
                    0 <= i < k ==> ((#[trigger] reports[i]).1 matches Some(m)
                        && all_moves@.contains(m)),
            decreases chunks.len() - k,
        {
            let moves_chunk = copy_moves(&chunks[k]);
            assert(part_of(chunks[k as int]@, all_moves@));
            assert forall|j: int| 0 <= j < moves_chunk.len() implies board.applicable(
                #[trigger] moves_chunk[j],
            ) by {
                let m = moves_chunk[j];
                assert(all_moves@.contains(m));
                let at = choose|at: int| 0 <= at < all_moves.len() && all_moves[at] == m;
                assert(board.applicable(all_moves[at]));
            }
            let mut source = RandomSource::unseeded();
            let ghost seed = choose|seed: u64| source.of_seed(seed);
            proof {
                lemma_keys_of_seed(source, seed);
            }
            let mut transposition_table = TranspositionTable::init_transpo_table(&mut source);
            let report = minimax.minimax_v2(
                chess_board.clone(),
                moves_chunk,
                &mut transposition_table,
            );
            proof {
                let m = report.1.unwrap();
                assert(chunks[k as int]@.contains(m));
                let j = choose|j: int| 0 <= j < chunks[k as int].len() && chunks[k as int][j] == m;
                assert(all_moves@.contains(chunks[k as int]@[j]));
                assert(report == report_of_seed(board, chunk(all_moves@, size, k as int), seed));
                seeds = seeds.push(seed);
            }
            reports.push(report);
            k += 1;
        }
        let best = Minimax::select_best(&reports);
        proof {
            let told = Seq::new(
                seeds.len(),
                |i: int| report_of_seed(board, chunk(board.party_moves(), size, i), seeds[i]),
            );
            assert(reports@ =~= told);
            if reports.len() > 0 {
                let at = choose|at: int| chosen(reports@, at) && best == reports[at].1;
                assert(reports[at].1 is Some);
                assert(chosen(told, at) && best == told[at].1);
            }
            assert(decided_by(board, seeds, best));
        }
        best
    }

    /// The move of the report with the highest score; among reports with
    /// that score, of the last one. Without a report there is no move.
    pub fn select_best(reports: &Vec<(i32, Option<ChessMove>)>) -> (best: Option<ChessMove>)
        ensures
            reports.len() == 0 ==> best is None,
            reports.len() > 0 ==> exists|k: int| chosen(reports@, k) && best == reports[k].1,
    {
        if reports.len() == 0 {
            return None;
        }
        let mut at: usize = 0;
        let mut i: usize = 1;
        while i < reports.len()
            invariant
                0 <= at < i <= reports.len(),
                forall|j: int| 0 <= j < i ==> (#[trigger] reports[j]).0 <= reports[at as int].0,
                forall|j: int| at < j < i ==> (#[trigger] reports[j]).0 < reports[at as int].0,
            decreases reports.len() - i,
        {
            if reports[i].0 >= reports[at].0 {
                at = i;
            }
            i += 1;
        }
        assert(chosen(reports@, at as int));
        reports[at].1
    }
}

} // verus!
