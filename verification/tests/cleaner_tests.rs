use ttl_cleaner::block_cache::BlockCache;
use ttl_cleaner::block_listener::BlockListenerRegistry;
use ttl_cleaner::cleaner::CallLog;
use ttl_cleaner::cleaner::Cleaner;
use ttl_cleaner::cleaner::Step;
use ttl_cleaner::network_client::NetworkClientManager;
use ttl_cleaner::tx_store::TransactionStore;
use ttl_cleaner::tx_store::TxRecord;

fn cleaner_with_some_state() -> Cleaner {
    let mut tx_store = TransactionStore::new();
    tx_store.insert(1, 0);
    tx_store.insert(2, 9);
    let mut listeners = BlockListenerRegistry::new();
    listeners.register(1, 0);
    listeners.register(2, 9);
    let mut cache = BlockCache::new();
    cache.store_block(100, 0);
    cache.store_block(101, 9);
    Cleaner::new(tx_store, listeners, cache, NetworkClientManager::new())
}

fn log_steps(log: &CallLog) -> Vec<Step> {
    let mut steps = Vec::new();
    let mut i = 0;
    while i < log.len() {
        steps.push(log.get(i));
        i += 1;
    }
    steps
}

#[test]
fn tick_calls_collaborators_in_fixed_order() {
    let mut cleaner = cleaner_with_some_state();
    let mut log = CallLog::new();
    cleaner.tick(10, 5, &mut log);
    assert_eq!(
        log_steps(&log),
        vec![Step::TxSweep, Step::ListenerSweep, Step::CacheSweep, Step::ClientReset],
    );
    cleaner.tick(20, 5, &mut log);
    assert_eq!(
        log_steps(&log),
        vec![
            Step::TxSweep,
            Step::ListenerSweep,
            Step::CacheSweep,
            Step::ClientReset,
            Step::TxSweep,
            Step::ListenerSweep,
            Step::CacheSweep,
            Step::ClientReset,
        ],
    );
}

#[test]
fn tick_sweeps_every_store_by_age() {
    let mut cleaner = cleaner_with_some_state();
    let mut log = CallLog::new();
    cleaner.tick(10, 5, &mut log);
    assert_eq!(cleaner.tx_store.len(), 1);
    assert!(cleaner.tx_store.contains_signature(2));
    assert_eq!(cleaner.block_listeners.len(), 1);
    assert_eq!(cleaner.block_cache.len(), 1);
    assert_eq!(cleaner.client_manager.resets_attempted, 1);
    assert_eq!(cleaner.client_manager.resets_completed, 1);
}

#[test]
fn failing_reset_does_not_prevent_any_sweep() {
    let mut healthy = cleaner_with_some_state();
    let mut failing = cleaner_with_some_state();
    failing.client_manager.plan_outcome(false);

    let mut log_healthy = CallLog::new();
    let mut log_failing = CallLog::new();
    healthy.tick(10, 5, &mut log_healthy);
    failing.tick(10, 5, &mut log_failing);

    // Same sweeps, same order, on the same tick.
    assert_eq!(log_steps(&log_healthy), log_steps(&log_failing));
    assert_eq!(healthy.tx_store.len(), failing.tx_store.len());
    assert_eq!(healthy.block_listeners.len(), failing.block_listeners.len());
    assert_eq!(healthy.block_cache.len(), failing.block_cache.len());
    assert_eq!(healthy.tx_store.get(0), failing.tx_store.get(0));
    assert_eq!(healthy.block_listeners.get(0), failing.block_listeners.get(0));
    assert_eq!(healthy.block_cache.get(0), failing.block_cache.get(0));

    // Only the reset outcome differs.
    assert_eq!(failing.client_manager.resets_attempted, 1);
    assert_eq!(failing.client_manager.resets_completed, 0);
    assert_eq!(healthy.client_manager.resets_completed, 1);
}

#[test]
fn step_methods_report_counts_and_log_their_call() {
    let mut cleaner = cleaner_with_some_state();
    let mut log = CallLog::new();
    assert_eq!(cleaner.clean_tx_sender(10, 5, &mut log), 1);
    assert_eq!(cleaner.clean_block_listeners(10, 5, &mut log), 1);
    assert_eq!(cleaner.clean_block_store(10, 5, &mut log), 1);
    assert_eq!(cleaner.reset_client(&mut log), Ok(()));
    assert_eq!(
        log_steps(&log),
        vec![Step::TxSweep, Step::ListenerSweep, Step::CacheSweep, Step::ClientReset],
    );
}

#[test]
fn ttl_lifecycle_across_three_ticks() {
    // TTL of one time unit, a tick every unit, on a clock of half units:
    // TTL = 2 on a clock where one unit is two steps.
    let ttl = 2;
    let mut cleaner = Cleaner::new(
        TransactionStore::new(),
        BlockListenerRegistry::new(),
        BlockCache::new(),
        NetworkClientManager::new(),
    );
    let mut log = CallLog::new();

    // Record A inserted at t = 0.
    cleaner.tx_store.insert(1, 0);

    // Tick at t = 1 unit: A's age is one unit, at the TTL, so A is removed.
    cleaner.tick(2, ttl, &mut log);
    assert!(!cleaner.tx_store.contains_signature(1));
    assert_eq!(cleaner.tx_store.len(), 0);

    // Record B inserted at t = 1.5 units.
    cleaner.tx_store.insert(2, 3);

    // Tick at t = 2 units: B's age is half a unit, below the TTL, so B stays.
    cleaner.tick(4, ttl, &mut log);
    assert!(cleaner.tx_store.contains_signature(2));
    assert_eq!(cleaner.tx_store.get(0), TxRecord { signature: 2, sent_at: 3 });

    // Tick at t = 3 units: B's age is one and a half units, so B is removed.
    cleaner.tick(6, ttl, &mut log);
    assert!(!cleaner.tx_store.contains_signature(2));
    assert_eq!(cleaner.tx_store.len(), 0);
}

#[test]
fn second_tick_with_unchanged_clock_removes_nothing() {
    let mut cleaner = cleaner_with_some_state();
    let mut log = CallLog::new();
    cleaner.tick(10, 5, &mut log);
    let tx_len = cleaner.tx_store.len();
    let listener_len = cleaner.block_listeners.len();
    let cache_len = cleaner.block_cache.len();
    cleaner.tick(10, 5, &mut log);
    assert_eq!(cleaner.tx_store.len(), tx_len);
    assert_eq!(cleaner.block_listeners.len(), listener_len);
    assert_eq!(cleaner.block_cache.len(), cache_len);
}
