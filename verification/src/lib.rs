//! A TTL-driven cleanup scheduler for an RPC relay.
//!
//! Several shared stores in the relay grow without bound while it runs: a map
//! of recently submitted transactions awaiting confirmation, a registry of
//! signature subscribers, and a cache of recently seen blocks. The [`Cleaner`]
//! sweeps each of them on a fixed interval, evicting every entry whose age has
//! reached the configured time-to-live, and finishes each round by asking the
//! network client manager to reset its connection, tolerating a transient
//! failure of that reset.
//!
//! Time is measured on a single monotone `u64` clock supplied by the caller;
//! every contract is stated over that clock, the stores' sequence views, and
//! the spec-level sweep functions.

pub mod aged_store;
pub mod block_cache;
pub mod block_listener;
pub mod cleaner;
pub mod network_client;
pub mod seq_facts;
pub mod ttl;
pub mod tx_store;
