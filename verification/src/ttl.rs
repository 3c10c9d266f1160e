//! Age and expiry on the scheduler's clock.
//!
//! Every store entry carries the time at which it was stamped. The cleaner
//! works with a caller-supplied monotone clock, so an entry stamped after the
//! observation instant (a producer raced the sweep) simply has age zero.

use vstd::prelude::*;

verus! {

/// Age at time `now` of an entry stamped at `stamp`. An entry stamped in the
/// future of `now` has age zero rather than a negative age.
pub open spec fn age_at(stamp: u64, now: u64) -> int {
    if now >= stamp {
        now - stamp
    } else {
        0
    }
}

/// An entry is expired once its age has reached the time-to-live.
pub open spec fn expired_at(stamp: u64, now: u64, ttl: u64) -> bool {
    age_at(stamp, now) >= ttl
}

/// Executable age computation, matching [`age_at`].
pub fn entry_age(stamp: u64, now: u64) -> (age: u64)
    ensures
        age == age_at(stamp, now),
{
    if now >= stamp {
        now - stamp
    } else {
        0
    }
}

/// Executable expiry test, matching [`expired_at`].
pub fn entry_expired(stamp: u64, now: u64, ttl: u64) -> (b: bool)
    ensures
        b == expired_at(stamp, now, ttl),
{
    entry_age(stamp, now) >= ttl
}

} // verus!
