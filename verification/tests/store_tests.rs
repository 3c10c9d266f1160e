use ttl_cleaner::aged_store::AgedEntry;
use ttl_cleaner::block_cache::BlockCache;
use ttl_cleaner::block_listener::BlockListenerRegistry;
use ttl_cleaner::network_client::NetworkClientManager;
use ttl_cleaner::network_client::ResetError;
use ttl_cleaner::tx_store::TransactionStore;
use ttl_cleaner::tx_store::TxRecord;

#[test]
fn insert_and_lookup() {
    let mut store = TransactionStore::new();
    assert_eq!(store.len(), 0);
    store.insert(1, 10);
    store.insert(2, 11);
    store.insert(3, 12);
    assert_eq!(store.len(), 3);
    assert!(store.contains_signature(2));
    assert!(!store.contains_signature(9));
    assert_eq!(store.get(0), TxRecord { signature: 1, sent_at: 10 });
    assert!(store.is_well_formed());
}

#[test]
fn insert_existing_signature_updates_in_place() {
    let mut store = TransactionStore::new();
    store.insert(1, 10);
    store.insert(2, 20);
    store.insert(1, 30);
    assert_eq!(store.len(), 2);
    assert_eq!(store.get(0), TxRecord { signature: 1, sent_at: 30 });
    assert_eq!(store.get(1), TxRecord { signature: 2, sent_at: 20 });
    assert!(store.is_well_formed());
}

#[test]
fn sweep_removes_expired_and_keeps_live() {
    // TTL 5 at time 10: ages are 10, 5, 4 and 0 — the first two must go.
    let mut store = TransactionStore::new();
    store.insert(1, 0);
    store.insert(2, 5);
    store.insert(3, 6);
    store.insert(4, 10);
    let removed = store.sweep(10, 5);
    assert_eq!(removed, 2);
    assert_eq!(store.len(), 2);
    assert_eq!(store.get(0), TxRecord { signature: 3, sent_at: 6 });
    assert_eq!(store.get(1), TxRecord { signature: 4, sent_at: 10 });
}

#[test]
fn sweep_removes_entry_whose_age_equals_ttl() {
    let mut store = TransactionStore::new();
    store.insert(7, 3);
    let removed = store.sweep(8, 5);
    assert_eq!(removed, 1);
    assert_eq!(store.len(), 0);
}

#[test]
fn sweep_twice_removes_nothing_more() {
    let mut store = TransactionStore::new();
    store.insert(1, 0);
    store.insert(2, 7);
    store.insert(3, 9);
    let first = store.sweep(10, 3);
    assert_eq!(first, 2);
    let second = store.sweep(10, 3);
    assert_eq!(second, 0);
    assert_eq!(store.len(), 1);
    assert_eq!(store.get(0), TxRecord { signature: 3, sent_at: 9 });
}

#[test]
fn entry_stamped_in_the_future_has_age_zero() {
    let mut store = TransactionStore::new();
    store.insert(1, 50);
    let removed = store.sweep(10, 1);
    assert_eq!(removed, 0);
    assert_eq!(store.len(), 1);
}

#[test]
fn fresh_insert_during_pass_survives_the_pass() {
    // One expired record; a producer inserts a fresh record (age zero) while
    // the pass is in progress. The fresh record must survive the pass.
    let mut store = TransactionStore::new();
    store.insert(1, 0);
    store.insert(2, 1);
    let now = 10;
    let ttl = 3;
    let mut pos = 0;
    // Visit the first record: age 10, removed.
    assert!(store.sweep_visit(pos, now, ttl));
    // Concurrent producer: fresh record, age zero at `now`.
    store.insert(9, now);
    // Finish the pass.
    while pos < store.len() {
        if !store.sweep_visit(pos, now, ttl) {
            pos += 1;
        }
    }
    assert!(store.contains_signature(9));
    assert!(!store.contains_signature(1));
    assert!(!store.contains_signature(2));
}

#[test]
fn ttl_zero_expires_even_fresh_entries() {
    // With TTL 0 an age-zero record is already at the threshold: the
    // fresh-insert guarantee needs a positive TTL.
    let mut store = TransactionStore::new();
    store.insert(1, 10);
    let removed = store.sweep(10, 0);
    assert_eq!(removed, 1);
    assert_eq!(store.len(), 0);
}

#[test]
fn sweep_of_empty_store_removes_nothing() {
    let mut store = TransactionStore::new();
    assert_eq!(store.sweep(100, 5), 0);
    assert_eq!(store.len(), 0);
}

#[test]
fn registry_keeps_duplicate_signatures_and_cleans_by_age() {
    let mut registry = BlockListenerRegistry::new();
    registry.register(5, 0);
    registry.register(5, 8);
    registry.register(6, 9);
    assert_eq!(registry.len(), 3);
    let removed = registry.clean(10, 4);
    assert_eq!(removed, 1);
    assert_eq!(registry.len(), 2);
    assert_eq!(registry.get(0), AgedEntry { key: 5, stamp: 8 });
    assert_eq!(registry.get(1), AgedEntry { key: 6, stamp: 9 });
}

#[test]
fn block_cache_cleans_by_age() {
    let mut cache = BlockCache::new();
    cache.store_block(100, 0);
    cache.store_block(101, 6);
    let removed = cache.clean(10, 5);
    assert_eq!(removed, 1);
    assert_eq!(cache.len(), 1);
    assert_eq!(cache.get(0), AgedEntry { key: 101, stamp: 6 });
}

#[test]
fn reset_succeeds_with_no_planned_outcome() {
    let mut manager = NetworkClientManager::new();
    assert_eq!(manager.reset(), Ok(()));
    assert_eq!(manager.resets_attempted, 1);
    assert_eq!(manager.resets_completed, 1);
}

#[test]
fn reset_consumes_planned_failure_then_recovers() {
    let mut manager = NetworkClientManager::new();
    manager.plan_outcome(false);
    assert_eq!(manager.reset(), Err(ResetError::ConnectionFailed));
    assert_eq!(manager.resets_attempted, 1);
    assert_eq!(manager.resets_completed, 0);
    assert_eq!(manager.reset(), Ok(()));
    assert_eq!(manager.resets_attempted, 2);
    assert_eq!(manager.resets_completed, 1);
}
