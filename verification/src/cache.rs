//! What a search has already worked out, by board, for one generation of
//! searches.

use crate::board::Board;
use crate::single::Single;
use std::collections::HashMap;
use vstd::prelude::*;
use vstd::std_specs::hash::*;

verus! {

broadcast use vstd::std_specs::hash::group_hash_axioms;

/// The result of a chance node: how deep it was searched, and the expected
/// score and end probability that the search found.
#[derive(Debug, Copy, Clone, PartialEq, Eq, Structural)]
pub struct CacheEntry {
    /// The depth of the search that gave the result.
    pub depth: i32,
    /// The expected score.
    pub score: Single,
    /// The probability of the end of the game.
    pub end_prob: Single,
}

/// The results of one generation of searches, by board. A result depends on
/// the probability with which its node was reached from the root, so the
/// results of one generation are of no use to the next: a cache that is
/// asked to begin another generation forgets what it holds.
pub struct TranspositionCache {
    generation: u32,
    entries: HashMap<u64, CacheEntry>,
}

impl View for TranspositionCache {
    type V = Map<u64, CacheEntry>;

    /// The entries by the bits of their boards.
    closed spec fn view(&self) -> Map<u64, CacheEntry> {
        self.entries@
    }
}

impl TranspositionCache {
    /// The generation that the entries belong to.
    pub closed spec fn spec_generation(self) -> u32 {
        self.generation
    }

    /// What a search of `board` to `depth` finds in a cache with the
    /// entries `entries`: the entry of the board, if it was searched at
    /// least as deep.
    pub open spec fn hit(entries: Map<u64, CacheEntry>, board: Board, depth: u8) -> Option<
        CacheEntry,
    > {
        if entries.contains_key(board.0) && entries[board.0].depth >= depth {
            Some(entries[board.0])
        } else {
            None
        }
    }

    /// An empty cache of generation 0.
    pub fn new() -> (cache: TranspositionCache)
        ensures
            cache@ == Map::<u64, CacheEntry>::empty(),
            cache.spec_generation() == 0,
    {
        TranspositionCache { generation: 0, entries: HashMap::new() }
    }

    /// The generation that the entries belong to.
    pub fn generation(&self) -> (generation: u32)
        ensures
            generation == self.spec_generation(),
    {
        self.generation
    }

    /// The generation after `generation`; after the last comes the first.
    pub open spec fn following(generation: u32) -> u32 {
        if generation == u32::MAX {
            0
        } else {
            (generation + 1) as u32
        }
    }

    /// Makes the cache ready for a search of the generation after its own,
    /// which empties it.
    pub fn begin_next(&mut self)
        ensures
            final(self).spec_generation() == TranspositionCache::following(
                old(self).spec_generation(),
            ),
            final(self)@ == Map::<u64, CacheEntry>::empty(),
    {
        let next = if self.generation == u32::MAX {
            0
        } else {
            self.generation + 1
        };
        self.begin(next);
    }

    /// Makes the cache ready for a search of generation `generation`: it
    /// keeps its entries if they are of that generation and drops them all
    /// if they are not.
    pub fn begin(&mut self, generation: u32)
        ensures
            final(self).spec_generation() == generation,
            old(self).spec_generation() == generation ==> final(self)@ == old(self)@,
            old(self).spec_generation() != generation ==> final(self)@ == Map::<
                u64,
                CacheEntry,
            >::empty(),
    {
        if self.generation != generation {
            self.entries.clear();
            self.generation = generation;
        }
    }

    /// The entry of `board`, if the cache holds one from a search of at
    /// least `depth`.
    pub fn lookup(&self, board: Board, depth: u8) -> (found: Option<CacheEntry>)
        ensures
            found == TranspositionCache::hit(self@, board, depth),
    {
        match self.entries.get(&board.0) {
            Some(entry) => {
                if entry.depth >= depth as i32 {
                    Some(*entry)
                } else {
                    None
                }
            },
            None => None,
        }
    }

    /// Records what a search of `board` to `depth` found, in place of any
    /// earlier entry of the board.
    pub fn store(&mut self, board: Board, depth: u8, score: Single, end_prob: Single)
        ensures
            final(self)@ == old(self)@.insert(
                board.0,
                (CacheEntry { depth: depth as i32, score, end_prob }),
            ),
            final(self).spec_generation() == old(self).spec_generation(),
    {
        self.entries.insert(board.0, CacheEntry { depth: depth as i32, score, end_prob });
    }
}

/// A search finds what was stored for its board if it asks for no more
/// depth than was stored, and what was stored for another board does not
/// change what it finds.
pub proof fn lemma_store_then_lookup(
    entries: Map<u64, CacheEntry>,
    board: Board,
    entry: CacheEntry,
    other: Board,
    depth: u8,
)
    ensures
        TranspositionCache::hit(entries.insert(board.0, entry), board, depth) == if entry.depth
            >= depth {
            Some(entry)
        } else {
            None
        },
        other != board ==> TranspositionCache::hit(entries.insert(board.0, entry), other, depth)
            == TranspositionCache::hit(entries, other, depth),
        TranspositionCache::hit(Map::<u64, CacheEntry>::empty(), board, depth).is_none(),
{
}

} // verus!
