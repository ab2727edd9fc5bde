use chess_engine::chess_board::ChessBoard;
use chess_engine::evaluation::eval_function;
use chess_engine::minimax::Minimax;
use chess_engine::pieces::{ChessMove, Color, PartyState, Position};
use chess_engine::transposition_table::TranspositionTable;
use chess_engine::zobrist::RandomSource;

fn ordinary(from: (usize, usize), to: (usize, usize)) -> ChessMove {
    ChessMove::OrdinaryMove {
        from: Position { row: from.0, col: from.1 },
        to: Position { row: to.0, col: to.1 },
    }
}

fn play(board: &mut ChessBoard, moves: &[((usize, usize), (usize, usize))]) {
    for (from, to) in moves {
        board.update_board(ordinary(*from, *to));
    }
}

fn root(color: Color, max_depth: usize) -> Minimax {
    Minimax { depth: 0, max_depth, color, alpha: i32::MIN, beta: i32::MAX }
}

fn fresh(seed: u64) -> TranspositionTable {
    let mut source = RandomSource::seeded(seed);
    TranspositionTable::init_transpo_table(&mut source)
}

/// Minimax without any pruning: every move of every node is tried.
fn full_minimax(
    state: Minimax,
    board: &ChessBoard,
    moves: &Vec<ChessMove>,
) -> (i32, Option<ChessMove>) {
    if state.depth >= state.max_depth || moves.is_empty() {
        return (eval_function(&state, board.clone()), None);
    }
    let child = Minimax { depth: state.depth + 1, ..state };
    let maximizing = board.get_turn() == state.color;
    let mut best_score = if maximizing { i32::MIN } else { i32::MAX };
    let mut best_move = None;
    for m in moves.iter() {
        let mut next = board.clone();
        let replies = next.update_board(*m);
        let (score, _) = full_minimax(child, &next, &replies);
        if (maximizing && score > best_score) || (!maximizing && score < best_score) {
            best_score = score;
            best_move = Some(*m);
        }
    }
    (best_score, best_move)
}

/// Positions of a game in progress.
fn midgame_positions() -> Vec<ChessBoard> {
    let mut positions = Vec::new();
    let mut board = ChessBoard::new();
    play(
        &mut board,
        &[((1, 4), (3, 4)), ((6, 4), (4, 4)), ((0, 6), (2, 5)), ((7, 1), (5, 2)), ((0, 5), (3, 2))],
    );
    positions.push(board.clone());
    play(&mut board, &[((7, 5), (4, 2)), ((1, 3), (2, 3)), ((7, 6), (5, 5))]);
    positions.push(board.clone());
    play(&mut board, &[((0, 2), (4, 6)), ((6, 7), (5, 7)), ((4, 6), (5, 5)), ((7, 3), (5, 5))]);
    positions.push(board.clone());
    play(&mut board, &[((0, 1), (2, 2))]);
    positions.push(board);
    positions
}

#[test]
fn pruning_keeps_score_and_move() {
    for (n, board) in midgame_positions().into_iter().enumerate() {
        let moves = board.get_party_moves();
        assert!(!moves.is_empty());
        let state = root(board.get_turn(), 2);
        let expected = full_minimax(state, &board, &moves);
        assert!(expected.1.is_some());
        let mut cache = fresh(n as u64);
        let pruned = state.minimax_v2(board.clone(), moves.clone(), &mut cache);
        assert_eq!(pruned, expected);
        let plain = state.minimax(board.clone(), moves.clone());
        assert_eq!(plain, expected);
    }
}

#[test]
fn pruning_keeps_score_and_move_three_deep() {
    let board = midgame_positions().remove(2);
    let moves = board.get_party_moves();
    let state = root(board.get_turn(), 3);
    let expected = full_minimax(state, &board, &moves);
    let mut cache = fresh(77);
    assert_eq!(state.minimax_v2(board.clone(), moves.clone(), &mut cache), expected);
    assert_eq!(state.minimax(board.clone(), moves.clone()), expected);
}

#[test]
fn pruning_keeps_the_score_for_the_other_side() {
    // the search is made for White while Black is to move: the root
    // takes the lowest score
    let board = midgame_positions().remove(0);
    assert_eq!(board.get_turn(), Color::Black);
    let moves = board.get_party_moves();
    let state = root(Color::White, 2);
    let expected = full_minimax(state, &board, &moves);
    let mut cache = fresh(4);
    assert_eq!(state.minimax_v2(board.clone(), moves.clone(), &mut cache), expected);
    assert_eq!(state.minimax(board.clone(), moves.clone()), expected);
}

#[test]
fn depth_one_takes_the_best_static_score() {
    let board = ChessBoard::new();
    let moves = board.get_party_moves();
    let state = root(Color::White, 1);
    let mut best = i32::MIN;
    let mut best_move = None;
    for m in moves.iter() {
        let mut next = board.clone();
        next.update_board(*m);
        let score = eval_function(&state, next);
        if score > best {
            best = score;
            best_move = Some(*m);
        }
    }
    let mut cache = fresh(1);
    assert_eq!(state.minimax_v2(board.clone(), moves.clone(), &mut cache), (best, best_move));
    // among moves of the same score the first one is taken
    let first_best = moves
        .iter()
        .find(|m| {
            let mut next = board.clone();
            next.update_board(**m);
            eval_function(&state, next) == best
        })
        .copied();
    assert_eq!(best_move, first_best);
}

#[test]
fn a_leaf_is_scored_and_cached() {
    let board = ChessBoard::new();
    let moves = board.get_party_moves();
    let mut cache = fresh(6);
    let hash = cache.get_hash(&board);
    assert_eq!(cache.get_from_table(hash), None);
    // depth used up: the position itself is scored
    let state = Minimax { depth: 2, max_depth: 2, color: Color::White, alpha: -5, beta: 5 };
    assert_eq!(state.minimax_v2(board.clone(), moves.clone(), &mut cache), (0, None));
    assert_eq!(cache.get_from_table(hash), Some(0));
    // a cached score is taken as it is
    cache.insert_into_table(hash, 1234);
    assert_eq!(state.minimax_v2(board.clone(), moves.clone(), &mut cache), (1234, None));
    // past the depth the search stops as well
    let state = Minimax { depth: 3, max_depth: 2, color: Color::White, alpha: -5, beta: 5 };
    assert_eq!(state.minimax_v2(board.clone(), moves.clone(), &mut cache), (1234, None));
    assert_eq!(state.minimax(board.clone(), moves), (0, None));
}

#[test]
fn no_moves_no_search() {
    // fool's mate: White is mated
    let mut board = ChessBoard::new();
    play(
        &mut board,
        &[((1, 5), (2, 5)), ((6, 4), (4, 4)), ((1, 6), (3, 6)), ((7, 3), (3, 7))],
    );
    assert_eq!(board.get_party_state(), PartyState::CheckMate);
    let state = root(Color::White, 3);
    let mut cache = fresh(2);
    let expected = eval_function(&state, board.clone());
    assert_eq!(state.minimax_v2(board.clone(), Vec::new(), &mut cache), (expected, None));
    assert_eq!(state.minimax(board.clone(), Vec::new()), (expected, None));
    assert_eq!(Minimax::start_minimax_mono(&board), None);
    assert_eq!(Minimax::start_minimax(&board), None);
}

#[test]
fn a_narrow_window_cuts_the_search_short() {
    // with alpha at beta already the first move ends the node
    let board = ChessBoard::new();
    let moves = board.get_party_moves();
    let state = Minimax { depth: 0, max_depth: 1, color: Color::White, alpha: 0, beta: 0 };
    let mut next = board.clone();
    next.update_board(moves[0]);
    let first = eval_function(&state, next);
    let mut cache = fresh(12);
    assert_eq!(
        state.minimax_v2(board.clone(), moves.clone(), &mut cache),
        (first, Some(moves[0]))
    );
    assert_eq!(state.minimax(board, moves.clone()), (first, Some(moves[0])));
}

#[test]
fn best_move_is_a_legal_move() {
    // few pieces, so that five moves deep is quickly searched:
    // the white queen takes all of Black but king and a pawn, the black
    // king all of White but king and queen
    let mut board = ChessBoard::new();
    let mut script: Vec<((usize, usize), (usize, usize))> = Vec::new();
    let mut queen = (0, 3);
    let mut victims: Vec<(usize, usize)> = (1..8).map(|c| (6, c)).collect();
    victims.extend([(7, 0), (7, 1), (7, 2), (7, 3), (7, 5), (7, 6), (7, 7)]);
    for v in victims {
        script.push((queen, v));
        queen = v;
    }
    let mut king = (7, 4);
    let mut victims: Vec<(usize, usize)> = (0..8).map(|c| (1, c)).collect();
    victims.extend([(0, 0), (0, 1), (0, 2), (0, 5), (0, 6), (0, 7)]);
    for v in victims {
        script.push((king, v));
        king = v;
    }
    script.push((king, (7, 4)));
    script.push((queen, (0, 3)));
    play(&mut board, &script);
    assert_eq!(board.get_turn(), Color::White);
    let legal = board.get_party_moves();
    assert!(!legal.is_empty());
    let best = Minimax::start_minimax_mono(&board);
    assert!(best.is_some());
    assert!(legal.contains(&best.unwrap()));
    // searched in chunks there is a legal move as well
    let best = Minimax::start_minimax(&board);
    assert!(best.is_some());
    assert!(legal.contains(&best.unwrap()));
}

#[test]
fn root_moves_are_cut_into_chunks() {
    let board = ChessBoard::new();
    let moves = board.get_party_moves();
    let chunks = Minimax::split_root_moves(&moves);
    assert_eq!(chunks.len(), 4);
    for (k, chunk) in chunks.iter().enumerate() {
        assert_eq!(chunk.as_slice(), &moves[k * 5..k * 5 + 5]);
    }
    // 22 moves: four chunks of five and one of two
    let mut more = moves.clone();
    more.push(moves[0]);
    more.push(moves[1]);
    let chunks = Minimax::split_root_moves(&more);
    let sizes: Vec<usize> = chunks.iter().map(|c| c.len()).collect();
    assert_eq!(sizes, vec![5, 5, 5, 5, 2]);
    assert_eq!(chunks.concat(), more);
    // three moves: three chunks of one
    let few = moves[..3].to_vec();
    let chunks = Minimax::split_root_moves(&few);
    assert_eq!(chunks, vec![vec![moves[0]], vec![moves[1]], vec![moves[2]]]);
    // seven moves: chunks of one
    let seven = moves[..7].to_vec();
    assert_eq!(Minimax::split_root_moves(&seven).len(), 7);
    // eight moves: chunks of two
    let eight = moves[..8].to_vec();
    let sizes: Vec<usize> = Minimax::split_root_moves(&eight).iter().map(|c| c.len()).collect();
    assert_eq!(sizes, vec![2, 2, 2, 2]);
    assert!(Minimax::split_root_moves(&Vec::new()).is_empty());
}

#[test]
fn the_best_report_wins() {
    let a = ordinary((1, 0), (2, 0));
    let b = ordinary((1, 1), (2, 1));
    let c = ordinary((1, 2), (2, 2));
    assert_eq!(Minimax::select_best(&Vec::new()), None);
    assert_eq!(Minimax::select_best(&vec![(3, Some(a))]), Some(a));
    assert_eq!(Minimax::select_best(&vec![(3, Some(a)), (9, Some(b)), (-4, Some(c))]), Some(b));
    assert_eq!(Minimax::select_best(&vec![(-3, Some(a)), (-9, Some(b)), (-4, Some(c))]), Some(a));
    // among equals the last one
    assert_eq!(Minimax::select_best(&vec![(9, Some(a)), (9, Some(b)), (4, Some(c))]), Some(b));
    assert_eq!(Minimax::select_best(&vec![(5, None), (4, Some(c))]), None);
    assert_eq!(
        Minimax::select_best(&vec![(i32::MIN, Some(a)), (i32::MAX, Some(b))]),
        Some(b)
    );
}

#[test]
fn workers_and_coordinator_agree_with_one_search() {
    // each chunk is searched with a cache of its own, and the best report
    // has the score of the search of all moves at once
    let board = midgame_positions().remove(1);
    let moves = board.get_party_moves();
    let state = root(board.get_turn(), 2);
    let mut reports = Vec::new();
    for (k, chunk) in Minimax::split_root_moves(&moves).into_iter().enumerate() {
        let mut cache = fresh(100 + k as u64);
        reports.push(state.minimax_v2(board.clone(), chunk, &mut cache));
    }
    let best = Minimax::select_best(&reports).unwrap();
    let (score, _) = full_minimax(state, &board, &moves);
    let top = reports.iter().map(|r| r.0).max().unwrap();
    assert_eq!(top, score);
    assert!(moves.contains(&best));
    let mut after = board.clone();
    let replies = after.update_board(best);
    let reply = full_minimax(Minimax { depth: 1, ..state }, &after, &replies);
    assert_eq!(reply.0, score);
}
