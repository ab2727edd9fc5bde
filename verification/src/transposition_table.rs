//! The cache of a search: from the fingerprint of a position to the score
//! that was found for it.

use vstd::prelude::*;
use std::collections::HashMap;
use crate::chess_board::ChessBoard;
use crate::zobrist::{keys_in_order, RandomSource, ZobristKeys, ZobristTableStruct};

verus! {

/// A cache as the contracts see it.
pub struct CacheView {
    /// The scores that were stored, by fingerprint.
    pub scores: Map<u64, i32>,
    /// The keys from which the fingerprints are made.
    pub keys: ZobristKeys,
}

/// What a lookup of `hash` finds in `scores`.
pub open spec fn lookup(scores: Map<u64, i32>, hash: u64) -> Option<i32> {
    if scores.contains_key(hash) {
        Some(scores[hash])
    } else {
        None
    }
}

/// The cache of one search. A stored score says nothing of the depth or of
/// the bounds under which it was found, so a cache serves one search and
/// one worker only.
pub struct TranspositionTable {
    hash_map: HashMap<u64, i32>,
    zobrist_hash: ZobristTableStruct,
}

impl View for TranspositionTable {
    type V = CacheView;

    /// The cache as the contracts see it.
    closed spec fn view(&self) -> CacheView {
        CacheView { scores: self.hash_map@, keys: self.zobrist_hash@ }
    }
}

impl TranspositionTable {
    /// The invariant of a cache: its table of keys is complete.
    pub open spec fn wf(&self) -> bool {
        self@.keys.wf()
    }

    /// An empty cache with a table of keys drawn from `source`: the next
    /// 769 keys of the source in their order.
    pub fn init_transpo_table(source: &mut RandomSource) -> (cache: TranspositionTable)
        ensures
            cache.wf(),
            cache@.scores == Map::<u64, i32>::empty(),
            cache@.keys == keys_in_order(old(source).keys(769)),
            final(source).follows(*old(source), 769),
    {
        let zobrist_hash = ZobristTableStruct::init_zobrist_table(source);
        let hash_map: HashMap<u64, i32> = HashMap::new();
        TranspositionTable { hash_map, zobrist_hash }
    }

    /// The fingerprint of a board under the keys of this cache.
    pub fn get_hash(&self, chess_board: &ChessBoard) -> (hash: u64)
        requires
            self.wf(),
            chess_board.wf(),
        ensures
            hash == self@.keys.fingerprint(chess_board@.grid, chess_board@.turn),
    {
        self.zobrist_hash.zobrist_hash(chess_board)
    }

    /// Stores `value` under `hash`, in place of what was stored there.
    pub fn insert_into_table(&mut self, hash: u64, value: i32)
        ensures
            final(self)@.scores == old(self)@.scores.insert(hash, value),
            final(self)@.keys == old(self)@.keys,
    {
        self.hash_map.insert(hash, value);
    }

    /// The score stored under `hash`, if there is one.
    pub fn get_from_table(&self, hash: u64) -> (value: Option<i32>)
        ensures
            value == lookup(self@.scores, hash),
    {
        match self.hash_map.get(&hash) {
            Some(score) => Some(*score),
            None => None,
        }
    }
}

/// A score that was stored is the score that a lookup finds.
pub proof fn lemma_store_then_lookup(scores: Map<u64, i32>, hash: u64, value: i32)
    ensures
        lookup(scores.insert(hash, value), hash) == Some(value),
{
}

/// Storing a score under one fingerprint leaves what is stored under
/// every other fingerprint as it was.
pub proof fn lemma_store_keeps_others(scores: Map<u64, i32>, hash: u64, value: i32, other: u64)
    requires
        other != hash,
    ensures
        lookup(scores.insert(hash, value), other) == lookup(scores, other),
{
}

} // verus!
