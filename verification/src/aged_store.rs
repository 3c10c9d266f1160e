//! Entries that age, and the pruning pass the collaborators share.
//!
//! The block-listener registry and the block cache both hold entries keyed by
//! a `u64` together with the time the entry appeared; both evict by age alone.
//! [`prune_expired`] is that shared eviction: it keeps exactly the entries
//! still below the time-to-live, in order.

use vstd::prelude::*;

use crate::seq_facts::lemma_filter_push;
use crate::ttl::entry_expired;
use crate::ttl::expired_at;

verus! {

broadcast use vstd::seq_lib::group_filter_ensures;

/// An entry with a key and the time it was stamped.
#[derive(Clone, Copy, PartialEq, Eq, Structural, Debug)]
pub struct AgedEntry {
    pub key: u64,
    pub stamp: u64,
}

/// An entry is live at `now` while its age is still below the TTL.
pub open spec fn live_entry(e: AgedEntry, now: u64, ttl: u64) -> bool {
    !expired_at(e.stamp, now, ttl)
}

/// The liveness predicate an eviction pass at `now` with TTL `ttl` keeps by.
pub open spec fn live_entry_pred(now: u64, ttl: u64) -> spec_fn(AgedEntry) -> bool {
    |e: AgedEntry| live_entry(e, now, ttl)
}

/// What remains of the entries `s` after one eviction pass at `now` with TTL
/// `ttl`: exactly the live entries, in their original order.
pub open spec fn swept_entries(s: Seq<AgedEntry>, now: u64, ttl: u64) -> Seq<AgedEntry> {
    s.filter(live_entry_pred(now, ttl))
}

/// Remove every entry whose age has reached `ttl` at `now`; return how many
/// were removed.
pub fn prune_expired(entries: &mut Vec<AgedEntry>, now: u64, ttl: u64) -> (removed: usize)
    ensures
        final(entries)@ == swept_entries(old(entries)@, now, ttl),
        removed == old(entries)@.len() - final(entries)@.len(),
{
    let ghost orig = entries@;
    let mut kept: Vec<AgedEntry> = Vec::new();
    let mut i: usize = 0;
    while i < entries.len()
        invariant
            entries@ == orig,
            i <= orig.len(),
            kept@ == swept_entries(orig.take(i as int), now, ttl),
        decreases orig.len() - i,
    {
        let e = entries[i];
        proof {
            assert(orig.take(i + 1) =~= orig.take(i as int).push(orig[i as int]));
            lemma_filter_push(orig.take(i as int), orig[i as int], live_entry_pred(now, ttl));
        }
        if !entry_expired(e.stamp, now, ttl) {
            kept.push(e);
        }
        i += 1;
    }
    proof {
        assert(orig.take(orig.len() as int) =~= orig);
        assert(kept@.len() <= orig.len());
    }
    let removed = entries.len() - kept.len();
    *entries = kept;
    removed
}

} // verus!
