//! A small chess engine whose rules are stated as contracts and proved.
//!
//! The value types are in [`pieces`]. A board in play is a
//! [`chess_board::ChessBoard`]; the contracts see it as a
//! [`board_view::BoardView`], over which [`move_rules`] states where pieces
//! may go, when a king is attacked, which moves are legal and what the
//! status is. [`move_generator`] and [`legal_moves`] compute what those
//! rules state, and [`board_lemmas`] and [`move_lemmas`] prove what holds
//! of them: a move keeps a board well formed, each side keeps its one king,
//! every legal move can be played, and a castle is legal only while king
//! and rook have not moved and nothing stands between them.
//!
//! Positions are scored by [`evaluation`], fingerprinted by [`zobrist`],
//! cached by [`transposition_table`] and searched by [`minimax`];
//! [`pruning`] proves that alpha-beta pruning changes neither the score nor
//! the move of a search, and [`caching`] that the cache does not either
//! while the fingerprints tell the scored positions apart. [`notation`]
//! reads squares and writes pieces.

pub mod pieces;
pub mod board_view;
pub mod move_rules;
pub mod board_lemmas;
pub mod move_lemmas;
pub mod chess_board;
pub mod move_generator;
pub mod legal_moves;
pub mod minimax;
pub mod pruning;
pub mod caching;
pub mod evaluation;
pub mod zobrist;
pub mod transposition_table;
pub mod notation;
