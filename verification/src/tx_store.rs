//! The store of recently submitted transactions.
//!
//! Producers record each submitted transaction under its signature together
//! with the time it was sent. The cleaner sweeps the store, removing every
//! record whose age has reached the time-to-live. The sweep is exposed both
//! whole ([`TransactionStore::sweep`]) and one visited entry at a time
//! ([`TransactionStore::sweep_visit`]), so that insertions by producers can be
//! interleaved with an in-progress pass exactly as they are in the running
//! relay, where no global lock is held across the scan.

use vstd::prelude::*;

use crate::seq_facts::lemma_filter_distinct_keys;
use crate::seq_facts::lemma_filter_idempotent;
use crate::seq_facts::lemma_filter_keeps;
use crate::seq_facts::lemma_filter_push;
use crate::ttl::age_at;
use crate::ttl::entry_expired;
use crate::ttl::expired_at;

verus! {

broadcast use vstd::seq_lib::group_filter_ensures;

/// One submission record: a transaction signature and the time it was sent.
#[derive(Clone, Copy, PartialEq, Eq, Structural, Debug)]
pub struct TxRecord {
    pub signature: u64,
    pub sent_at: u64,
}

/// A record is live at `now` while its age is still below the TTL.
pub open spec fn live_record(r: TxRecord, now: u64, ttl: u64) -> bool {
    !expired_at(r.sent_at, now, ttl)
}

/// The liveness predicate a sweep at `now` with TTL `ttl` keeps records by.
pub open spec fn live_pred(now: u64, ttl: u64) -> spec_fn(TxRecord) -> bool {
    |r: TxRecord| live_record(r, now, ttl)
}

/// What remains of the records `s` after one sweep at `now` with TTL `ttl`:
/// exactly the live records, in their original order.
pub open spec fn swept_records(s: Seq<TxRecord>, now: u64, ttl: u64) -> Seq<TxRecord> {
    s.filter(live_pred(now, ttl))
}

/// No two records share a signature.
pub open spec fn unique_signatures(s: Seq<TxRecord>) -> bool {
    forall|i: int, j: int| 0 <= i < j < s.len() ==> s[i].signature != s[j].signature
}

/// Some record in `s` carries this signature.
pub open spec fn has_signature(s: Seq<TxRecord>, signature: u64) -> bool {
    exists|i: int| 0 <= i < s.len() && s[i].signature == signature
}

/// The effect of one visit of a sweep pass on the records `s`: the visited
/// record is removed if it has expired and left in place otherwise.
pub open spec fn visit_step(s: Seq<TxRecord>, pos: int, now: u64, ttl: u64) -> Seq<TxRecord>
    recommends
        0 <= pos < s.len(),
{
    if live_record(s[pos], now, ttl) {
        s
    } else {
        s.remove(pos)
    }
}

/// Concurrent map from transaction signature to submission record, viewed as
/// the sequence of its records. Well-formedness: signatures are unique.
pub struct TransactionStore {
    entries: Vec<TxRecord>,
}

impl View for TransactionStore {
    type V = Seq<TxRecord>;

    closed spec fn view(&self) -> Seq<TxRecord> {
        self.entries@
    }
}

impl TransactionStore {
    /// The store maps each signature to at most one record.
    pub open spec fn wf(&self) -> bool {
        unique_signatures(self@)
    }

    /// An empty store.
    pub fn new() -> (store: Self)
        ensures
            store@ == Seq::<TxRecord>::empty(),
            store.wf(),
    {
        TransactionStore { entries: Vec::new() }
    }

    /// Number of records currently held.
    pub fn len(&self) -> (n: usize)
        ensures
            n == self@.len(),
    {
        self.entries.len()
    }

    /// The record at position `i` of the scan order.
    pub fn get(&self, i: usize) -> (r: TxRecord)
        requires
            i < self@.len(),
        ensures
            r == self@[i as int],
    {
        self.entries[i]
    }

    /// Whether some record carries `signature`.
    pub fn contains_signature(&self, signature: u64) -> (present: bool)
        ensures
            present == has_signature(self@, signature),
    {
        let mut i: usize = 0;
        while i < self.entries.len()
            invariant
                i <= self@.len(),
                forall|k: int| 0 <= k < i ==> self@[k].signature != signature,
            decreases self@.len() - i,
        {
            if self.entries[i].signature == signature {
                assert(self@[i as int].signature == signature);
                return true;
            }
            i += 1;
        }
        false
    }

    /// Runtime check of well-formedness, for callers outside the verified
    /// library that need to establish [`TransactionStore::wf`].
    pub fn is_well_formed(&self) -> (b: bool)
        ensures
            b == self.wf(),
    {
        let n = self.entries.len();
        let mut i: usize = 0;
        while i < n
            invariant
                n == self@.len(),
                i <= n,
                forall|p: int, q: int|
                    0 <= p < q < self@.len() && p < i ==> self@[p].signature != self@[q].signature,
            decreases n - i,
        {
            let mut j: usize = i + 1;
            while j < n
                invariant
                    n == self@.len(),
                    i < j <= n,
                    forall|q: int| i < q < j ==> self@[i as int].signature != self@[q].signature,
                decreases n - j,
            {
                if self.entries[j].signature == self.entries[i].signature {
                    assert(!unique_signatures(self@)) by {
                        let jj = j as int;
                        assert(0 <= i < jj < self@.len() && self@[i as int].signature
                            == self@[jj].signature);
                    }
                    return false;
                }
                j += 1;
            }
            i += 1;
        }
        true
    }

    /// Record a submission. A fresh signature is appended to the scan order;
    /// a signature already present has its record replaced in place.
    pub fn insert(&mut self, signature: u64, sent_at: u64)
        requires
            old(self).wf(),
        ensures
            final(self).wf(),
            has_signature(old(self)@, signature) ==> final(self)@.len() == old(self)@.len()
                && (forall|k: int|
                0 <= k < old(self)@.len() ==> final(self)@[k] == (if old(self)@[k].signature
                    == signature {
                    (TxRecord { signature, sent_at })
                } else {
                    old(self)@[k]
                })),
            !has_signature(old(self)@, signature) ==> final(self)@ == old(self)@.push(
                (TxRecord { signature, sent_at }),
            ),
    {
        let record = TxRecord { signature, sent_at };
        let mut i: usize = 0;
        while i < self.entries.len()
            invariant
                old(self).wf(),
                record == (TxRecord { signature, sent_at }),
                self@ == old(self)@,
                i <= self@.len(),
                forall|k: int| 0 <= k < i ==> self@[k].signature != signature,
            decreases self@.len() - i,
        {
            if self.entries[i].signature == signature {
                self.entries[i] = record;
                proof {
                    assert(old(self)@[i as int].signature == signature);
                    assert(has_signature(old(self)@, signature));
                    assert(self@ == old(self)@.update(i as int, record));
                    assert forall|k: int| 0 <= k < old(self)@.len() implies self@[k] == (
                    if old(self)@[k].signature == signature {
                        (TxRecord { signature, sent_at })
                    } else {
                        old(self)@[k]
                    }) by {
                        assert(self@[k] == old(self)@.update(i as int, record)[k]);
                        if k == i as int {
                            assert(self@[k] == record);
                        } else {
                            assert(self@[k] == old(self)@[k]);
                            if old(self)@[k].signature == signature {
                                assert(false);
                            }
                        }
                    }
                    let updated = self@;
                    assert forall|p: int, q: int|
                        0 <= p < q < updated.len() implies updated[p].signature
                        != updated[q].signature by {
                        assert(updated[p].signature == old(self)@[p].signature);
                        assert(updated[q].signature == old(self)@[q].signature);
                    }
                }
                return ;
            }
            i += 1;
        }
        self.entries.push(record);
        proof {
            let updated = self@;
            assert forall|p: int, q: int|
                0 <= p < q < updated.len() implies updated[p].signature
                != updated[q].signature by {
                if q == updated.len() - 1 {
                    assert(old(self)@[p].signature != signature);
                }
            }
        }
    }

    /// One visit of a sweep pass: examine the record at `pos` and remove it if
    /// it has expired at `now`. Returns whether it was removed. Producers may
    /// insert between visits; a pass is complete once `pos` reaches the length.
    pub fn sweep_visit(&mut self, pos: usize, now: u64, ttl: u64) -> (removed: bool)
        requires
            pos < old(self)@.len(),
        ensures
            final(self)@ == visit_step(old(self)@, pos as int, now, ttl),
            removed == !live_record(old(self)@[pos as int], now, ttl),
    {
        let r = self.entries[pos];
        if entry_expired(r.sent_at, now, ttl) {
            self.entries.remove(pos);
            true
        } else {
            false
        }
    }

    /// One whole sweep pass with no interleaved insertions: removes exactly
    /// the records whose age has reached `ttl` at `now`, keeps the rest in
    /// order, and returns how many were removed.
    pub fn sweep(&mut self, now: u64, ttl: u64) -> (removed: usize)
        ensures
            final(self)@ == swept_records(old(self)@, now, ttl),
            removed == old(self)@.len() - final(self)@.len(),
            old(self).wf() ==> final(self).wf(),
    {
        let before = self.entries.len();
        let ghost orig = self@;
        let ghost mut visited: int = 0;
        let mut i: usize = 0;
        while i < self.entries.len()
            invariant
                0 <= visited <= orig.len(),
                i == swept_records(orig.take(visited), now, ttl).len(),
                self@ == swept_records(orig.take(visited), now, ttl) + orig.skip(visited),
            decreases orig.len() - visited,
        {
            proof {
                assert(orig.skip(visited).len() > 0);
                assert(self@[i as int] == orig.skip(visited)[0]);
                assert(orig.skip(visited)[0] == orig[visited]);
            }
            let removed_here = self.sweep_visit(i, now, ttl);
            proof {
                let kept = swept_records(orig.take(visited), now, ttl);
                assert(orig.take(visited + 1) =~= orig.take(visited).push(orig[visited]));
                lemma_filter_push(orig.take(visited), orig[visited], live_pred(now, ttl));
                if removed_here {
                    assert(self@ =~= kept + orig.skip(visited + 1)) by {
                        assert(self@ == (kept + orig.skip(visited)).remove(i as int));
                        assert(orig.skip(visited).remove(0) =~= orig.skip(visited + 1));
                    }
                } else {
                    assert(self@ =~= swept_records(orig.take(visited + 1), now, ttl) + orig.skip(
                        visited + 1,
                    ));
                }
                visited = visited + 1;
            }
            if !removed_here {
                i += 1;
            }
        }
        proof {
            assert(orig.skip(visited).len() == 0);
            assert(visited == orig.len());
            assert(orig.take(visited) =~= orig);
            assert(self@ =~= swept_records(orig, now, ttl));
            if old(self).wf() {
                lemma_sweep_preserves_unique(orig, now, ttl);
            }
        }
        before - self.entries.len()
    }
}

/// After one sweep at `now` with TTL `ttl`: every remaining record is still
/// live, every live record was kept, and every expired record is gone.
pub proof fn lemma_sweep_exact(s: Seq<TxRecord>, now: u64, ttl: u64)
    ensures
        forall|k: int|
            0 <= k < swept_records(s, now, ttl).len() ==> live_record(
                #[trigger] swept_records(s, now, ttl)[k],
                now,
                ttl,
            ),
        forall|k: int|
            0 <= k < s.len() && live_record(s[k], now, ttl) ==> swept_records(
                s,
                now,
                ttl,
            ).contains(s[k]),
        forall|k: int|
            0 <= k < s.len() && !live_record(s[k], now, ttl) ==> !swept_records(
                s,
                now,
                ttl,
            ).contains(s[k]),
{
    let pred = live_pred(now, ttl);
    assert forall|k: int|
        0 <= k < swept_records(s, now, ttl).len() implies live_record(
        #[trigger] swept_records(s, now, ttl)[k],
        now,
        ttl,
    ) by {
        s.lemma_filter_pred(pred, k);
    }
    assert forall|k: int|
        0 <= k < s.len() && live_record(s[k], now, ttl) implies swept_records(
        s,
        now,
        ttl,
    ).contains(s[k]) by {
        s.lemma_filter_contains(pred, k);
    }
    assert forall|k: int|
        0 <= k < s.len() && !live_record(s[k], now, ttl) implies !swept_records(
        s,
        now,
        ttl,
    ).contains(s[k]) by {
        if swept_records(s, now, ttl).contains(s[k]) {
            let m = choose|m: int|
                0 <= m < swept_records(s, now, ttl).len() && swept_records(s, now, ttl)[m] == s[k];
            s.lemma_filter_pred(pred, m);
        }
    }
}

/// Sweeping twice in immediate succession, with no insertions in between and
/// the clock unchanged, removes nothing the second time.
pub proof fn lemma_sweep_idempotent(s: Seq<TxRecord>, now: u64, ttl: u64)
    ensures
        swept_records(swept_records(s, now, ttl), now, ttl) == swept_records(s, now, ttl),
{
    lemma_filter_idempotent(s, live_pred(now, ttl));
}

/// A record that is still live at `now` is kept by a whole sweep at `now`.
pub proof fn lemma_live_record_survives_sweep(s: Seq<TxRecord>, r: TxRecord, now: u64, ttl: u64)
    requires
        s.contains(r),
        live_record(r, now, ttl),
    ensures
        swept_records(s, now, ttl).contains(r),
{
    lemma_filter_keeps(s, live_pred(now, ttl), r);
}

/// A record that is still live at `now` survives any single visit of a sweep
/// pass at `now`, wherever that visit falls.
pub proof fn lemma_live_record_survives_visit(
    s: Seq<TxRecord>,
    pos: int,
    r: TxRecord,
    now: u64,
    ttl: u64,
)
    requires
        0 <= pos < s.len(),
        s.contains(r),
        live_record(r, now, ttl),
    ensures
        visit_step(s, pos, now, ttl).contains(r),
{
    if !live_record(s[pos], now, ttl) {
        let k = choose|k: int| 0 <= k < s.len() && s[k] == r;
        s.remove_ensures(pos);
        if k < pos {
            assert(s.remove(pos)[k] == r);
        } else {
            assert(s.remove(pos)[k - 1] == r);
        }
    }
}

/// The records left by the rest of a sweep pass that visits the positions
/// `ps` in order, each visit removing the visited record if it has expired at
/// `now`. A position out of range at its turn visits nothing.
pub open spec fn apply_visits(s: Seq<TxRecord>, ps: Seq<int>, now: u64, ttl: u64) -> Seq<TxRecord>
    decreases ps.len(),
{
    if ps.len() == 0 {
        s
    } else {
        let s1 = if 0 <= ps[0] < s.len() {
            visit_step(s, ps[0], now, ttl)
        } else {
            s
        };
        apply_visits(s1, ps.drop_first(), now, ttl)
    }
}

/// A record that is still live at `now` survives every remaining visit of a
/// sweep pass at `now`, whichever positions the pass still visits.
pub proof fn lemma_live_record_survives_pass(
    s: Seq<TxRecord>,
    ps: Seq<int>,
    r: TxRecord,
    now: u64,
    ttl: u64,
)
    requires
        s.contains(r),
        live_record(r, now, ttl),
    ensures
        apply_visits(s, ps, now, ttl).contains(r),
    decreases ps.len(),
{
    if ps.len() > 0 {
        if 0 <= ps[0] < s.len() {
            lemma_live_record_survives_visit(s, ps[0], r, now, ttl);
            lemma_live_record_survives_pass(visit_step(s, ps[0], now, ttl), ps.drop_first(), r, now, ttl);
        } else {
            lemma_live_record_survives_pass(s, ps.drop_first(), r, now, ttl);
        }
    }
}

/// A record inserted mid-pass with age zero is not removed by the rest of
/// that pass, provided the TTL is positive.
pub proof fn lemma_concurrent_insert_safe(
    s: Seq<TxRecord>,
    ps: Seq<int>,
    signature: u64,
    now: u64,
    ttl: u64,
)
    requires
        ttl > 0,
    ensures
        apply_visits(s.push((TxRecord { signature, sent_at: now })), ps, now, ttl).contains(
            (TxRecord { signature, sent_at: now }),
        ),
{
    let r = TxRecord { signature, sent_at: now };
    assert(age_at(r.sent_at, now) == 0);
    assert(s.push(r)[s.len() as int] == r);
    lemma_live_record_survives_pass(s.push(r), ps, r, now, ttl);
}

/// A sweep preserves signature uniqueness.
pub proof fn lemma_sweep_preserves_unique(s: Seq<TxRecord>, now: u64, ttl: u64)
    requires
        unique_signatures(s),
    ensures
        unique_signatures(swept_records(s, now, ttl)),
{
    lemma_filter_distinct_keys(s, live_pred(now, ttl), |r: TxRecord| r.signature);
}

} // verus!
