//! The rolling cache of recently observed blocks.
//!
//! Each cached block records the slot it belongs to and the time it was seen.
//! In the running relay this cache is reached behind an await and sweeps
//! itself while the caller's task is suspended; the eviction it performs is
//! the computation verified here.

use vstd::prelude::*;

use crate::aged_store::prune_expired;
use crate::aged_store::swept_entries;
use crate::aged_store::AgedEntry;

verus! {

/// Recently observed blocks, viewed as the sequence of cached blocks in the
/// order they were seen.
pub struct BlockCache {
    blocks: Vec<AgedEntry>,
}

impl View for BlockCache {
    type V = Seq<AgedEntry>;

    closed spec fn view(&self) -> Seq<AgedEntry> {
        self.blocks@
    }
}

impl BlockCache {
    /// An empty cache.
    pub fn new() -> (cache: Self)
        ensures
            cache@ == Seq::<AgedEntry>::empty(),
    {
        BlockCache { blocks: Vec::new() }
    }

    /// Number of blocks currently cached.
    pub fn len(&self) -> (n: usize)
        ensures
            n == self@.len(),
    {
        self.blocks.len()
    }

    /// The cached block at position `i`.
    pub fn get(&self, i: usize) -> (e: AgedEntry)
        requires
            i < self@.len(),
        ensures
            e == self@[i as int],
    {
        self.blocks[i]
    }

    /// Cache the block of slot `slot`, seen at time `seen_at`.
    pub fn store_block(&mut self, slot: u64, seen_at: u64)
        ensures
            final(self)@ == old(self)@.push((AgedEntry { key: slot, stamp: seen_at })),
    {
        self.blocks.push(AgedEntry { key: slot, stamp: seen_at });
    }

    /// The cache's own age-based eviction: remove every block whose age has
    /// reached `ttl` at `now`; return how many were removed.
    pub fn clean(&mut self, now: u64, ttl: u64) -> (removed: usize)
        ensures
            final(self)@ == swept_entries(old(self)@, now, ttl),
            removed == old(self)@.len() - final(self)@.len(),
    {
        prune_expired(&mut self.blocks, now, ttl)
    }
}

} // verus!
