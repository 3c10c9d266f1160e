//! The registry of signature subscribers awaiting block confirmation.
//!
//! Each registration records the signature a subscriber waits on and the time
//! the registration was made. Several subscribers may wait on one signature.
//! The registry evicts its own registrations by age when asked to clean.

use vstd::prelude::*;

use crate::aged_store::prune_expired;
use crate::aged_store::swept_entries;
use crate::aged_store::AgedEntry;

verus! {

/// Per-signature subscriber registrations, viewed as the sequence of
/// registrations in the order they were made.
pub struct BlockListenerRegistry {
    subscriptions: Vec<AgedEntry>,
}

impl View for BlockListenerRegistry {
    type V = Seq<AgedEntry>;

    closed spec fn view(&self) -> Seq<AgedEntry> {
        self.subscriptions@
    }
}

impl BlockListenerRegistry {
    /// An empty registry.
    pub fn new() -> (registry: Self)
        ensures
            registry@ == Seq::<AgedEntry>::empty(),
    {
        BlockListenerRegistry { subscriptions: Vec::new() }
    }

    /// Number of registrations currently held.
    pub fn len(&self) -> (n: usize)
        ensures
            n == self@.len(),
    {
        self.subscriptions.len()
    }

    /// The registration at position `i`.
    pub fn get(&self, i: usize) -> (e: AgedEntry)
        requires
            i < self@.len(),
        ensures
            e == self@[i as int],
    {
        self.subscriptions[i]
    }

    /// Register a subscriber waiting on `signature` at time `registered_at`.
    pub fn register(&mut self, signature: u64, registered_at: u64)
        ensures
            final(self)@ == old(self)@.push((AgedEntry { key: signature, stamp: registered_at })),
    {
        self.subscriptions.push(AgedEntry { key: signature, stamp: registered_at });
    }

    /// The registry's own age-based eviction: remove every registration whose
    /// age has reached `ttl` at `now`; return how many were removed.
    pub fn clean(&mut self, now: u64, ttl: u64) -> (removed: usize)
        ensures
            final(self)@ == swept_entries(old(self)@, now, ttl),
            removed == old(self)@.len() - final(self)@.len(),
    {
        prune_expired(&mut self.subscriptions, now, ttl)
    }
}

} // verus!
