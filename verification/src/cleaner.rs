//! The background worker that keeps the relay's shared stores from growing.
//!
//! The [`Cleaner`] is a pure orchestrator: it owns no policy of its own, only
//! handles to the four collaborators it maintains. Once per tick it performs,
//! in this fixed order: a sweep of the transaction store, a sweep of the
//! listener registry, a sweep of the block cache, and a reset of the network
//! client. The reset is fire-and-forget: a transient failure is discarded and
//! corrected by the reset of a later tick, and never keeps a sweep from
//! running. A [`CallLog`] records the order in which the collaborators are
//! called, so the fixed ordering is part of every contract rather than an
//! accident of the code.

use vstd::prelude::*;

use crate::aged_store::swept_entries;
use crate::block_cache::BlockCache;
use crate::block_listener::BlockListenerRegistry;
use crate::network_client::reset_applied;
use crate::network_client::NetworkClientManager;
use crate::network_client::ResetError;
use crate::tx_store::swept_records;
use crate::tx_store::TransactionStore;

verus! {

/// One call the cleaner makes into a collaborator.
#[derive(Clone, Copy, PartialEq, Eq, Structural, Debug)]
pub enum Step {
    /// Sweep of the transaction store.
    TxSweep,
    /// Sweep of the listener registry.
    ListenerSweep,
    /// Sweep of the block cache.
    CacheSweep,
    /// Reset of the network client.
    ClientReset,
}

/// Instrumentation: the calls the collaborators have observed, in order.
pub struct CallLog {
    events: Vec<Step>,
}

impl View for CallLog {
    type V = Seq<Step>;

    closed spec fn view(&self) -> Seq<Step> {
        self.events@
    }
}

impl CallLog {
    /// An empty log.
    pub fn new() -> (log: Self)
        ensures
            log@ == Seq::<Step>::empty(),
    {
        CallLog { events: Vec::new() }
    }

    /// Number of calls observed.
    pub fn len(&self) -> (n: usize)
        ensures
            n == self@.len(),
    {
        self.events.len()
    }

    /// The `i`-th call observed.
    pub fn get(&self, i: usize) -> (step: Step)
        requires
            i < self@.len(),
        ensures
            step == self@[i as int],
    {
        self.events[i]
    }

    /// Note one observed call.
    pub fn record(&mut self, step: Step)
        ensures
            final(self)@ == old(self)@.push(step),
    {
        self.events.push(step);
    }
}

/// The sequence of steps one tick performs, in order.
pub open spec fn tick_steps() -> Seq<Step> {
    seq![Step::TxSweep, Step::ListenerSweep, Step::CacheSweep, Step::ClientReset]
}

/// Background worker which cleans up memory: holds the four collaborators and
/// sweeps them on demand, one tick at a time.
pub struct Cleaner {
    pub tx_store: TransactionStore,
    pub block_listeners: BlockListenerRegistry,
    pub block_cache: BlockCache,
    pub client_manager: NetworkClientManager,
}

impl Cleaner {
    /// Aggregate the four collaborators. No validation, no side effects.
    pub fn new(
        tx_store: TransactionStore,
        block_listeners: BlockListenerRegistry,
        block_cache: BlockCache,
        client_manager: NetworkClientManager,
    ) -> (cleaner: Cleaner)
        ensures
            cleaner.tx_store == tx_store,
            cleaner.block_listeners == block_listeners,
            cleaner.block_cache == block_cache,
            cleaner.client_manager == client_manager,
    {
        Cleaner { tx_store, block_listeners, block_cache, client_manager }
    }

    /// Sweep the transaction store: remove every record whose age has reached
    /// `ttl` at `now`, touch nothing else, and return the count removed.
    pub fn clean_tx_sender(&mut self, now: u64, ttl: u64, log: &mut CallLog) -> (removed: usize)
        ensures
            final(self).tx_store@ == swept_records(old(self).tx_store@, now, ttl),
            old(self).tx_store.wf() ==> final(self).tx_store.wf(),
            removed == old(self).tx_store@.len() - final(self).tx_store@.len(),
            final(self).block_listeners == old(self).block_listeners,
            final(self).block_cache == old(self).block_cache,
            final(self).client_manager == old(self).client_manager,
            final(log)@ == old(log)@.push(Step::TxSweep),
    {
        let removed = self.tx_store.sweep(now, ttl);
        log.record(Step::TxSweep);
        removed
    }

    /// Clean signature subscribers from the block listeners: delegate to the
    /// registry's own age-based eviction and return the count removed.
    pub fn clean_block_listeners(
        &mut self,
        now: u64,
        ttl: u64,
        log: &mut CallLog,
    ) -> (removed: usize)
        ensures
            final(self).block_listeners@ == swept_entries(old(self).block_listeners@, now, ttl),
            removed == old(self).block_listeners@.len() - final(self).block_listeners@.len(),
            final(self).tx_store == old(self).tx_store,
            final(self).block_cache == old(self).block_cache,
            final(self).client_manager == old(self).client_manager,
            final(log)@ == old(log)@.push(Step::ListenerSweep),
    {
        let removed = self.block_listeners.clean(now, ttl);
        log.record(Step::ListenerSweep);
        removed
    }

    /// Sweep the block cache: delegate to the cache's own eviction and return
    /// the count removed. In the running relay this call suspends the
    /// cleaner's task while the cache works.
    pub fn clean_block_store(&mut self, now: u64, ttl: u64, log: &mut CallLog) -> (removed: usize)
        ensures
            final(self).block_cache@ == swept_entries(old(self).block_cache@, now, ttl),
            removed == old(self).block_cache@.len() - final(self).block_cache@.len(),
            final(self).tx_store == old(self).tx_store,
            final(self).block_listeners == old(self).block_listeners,
            final(self).client_manager == old(self).client_manager,
            final(log)@ == old(log)@.push(Step::CacheSweep),
    {
        let removed = self.block_cache.clean(now, ttl);
        log.record(Step::CacheSweep);
        removed
    }

    /// Reset the network client and report the outcome. Callers on the tick
    /// path discard the result: a missed reset is corrected on the next tick.
    pub fn reset_client(&mut self, log: &mut CallLog) -> (r: Result<(), ResetError>)
        ensures
            reset_applied(old(self).client_manager, final(self).client_manager),
            r is Ok <==> crate::network_client::next_outcome(old(self).client_manager),
            final(self).tx_store == old(self).tx_store,
            final(self).block_listeners == old(self).block_listeners,
            final(self).block_cache == old(self).block_cache,
            final(log)@ == old(log)@.push(Step::ClientReset),
    {
        let r = self.client_manager.reset();
        log.record(Step::ClientReset);
        r
    }

    /// One tick of the maintenance loop: the four steps in their fixed order.
    /// Every store ends up swept exactly by age, whatever the reset outcome —
    /// a failed reset is discarded here, never propagated.
    pub fn tick(&mut self, now: u64, ttl: u64, log: &mut CallLog)
        ensures
            final(self).tx_store@ == swept_records(old(self).tx_store@, now, ttl),
            old(self).tx_store.wf() ==> final(self).tx_store.wf(),
            final(self).block_listeners@ == swept_entries(old(self).block_listeners@, now, ttl),
            final(self).block_cache@ == swept_entries(old(self).block_cache@, now, ttl),
            reset_applied(old(self).client_manager, final(self).client_manager),
            final(log)@ == old(log)@ + tick_steps(),
    {
        self.clean_tx_sender(now, ttl, log);
        self.clean_block_listeners(now, ttl, log);
        self.clean_block_store(now, ttl, log);
        let _ = self.reset_client(log);
        proof {
            assert(log@ =~= old(log)@ + tick_steps());
        }
    }
}

/// Step independence: what a tick's sweeps leave in the three stores is a
/// function of the stores and the clock alone. Two cleaners whose stores agree
/// are swept identically, however their client managers differ — in
/// particular, an upcoming reset failure in one of them changes nothing about
/// any sweep. Together with [`Cleaner::tick`]'s contract, which promises the
/// swept stores and the applied reset unconditionally, a failing reset cannot
/// keep any sweep from running to completion.
pub proof fn lemma_step_independence(a: Cleaner, b: Cleaner, now: u64, ttl: u64)
    requires
        a.tx_store@ == b.tx_store@,
        a.block_listeners@ == b.block_listeners@,
        a.block_cache@ == b.block_cache@,
    ensures
        swept_records(a.tx_store@, now, ttl) == swept_records(b.tx_store@, now, ttl),
        swept_entries(a.block_listeners@, now, ttl) == swept_entries(b.block_listeners@, now, ttl),
        swept_entries(a.block_cache@, now, ttl) == swept_entries(b.block_cache@, now, ttl),
{
}

} // verus!
