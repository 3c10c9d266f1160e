//! The manager of the relay's long-lived network client.
//!
//! Its reset tears the connection down and establishes a fresh one, which can
//! fail transiently. Whether the next attempt succeeds is decided by the
//! network, not by the scheduler; the manager holds those upcoming outcomes as
//! explicit state, so the effect of a reset is fully determined and the
//! cleaner's tolerance of a failed reset can be stated and proved. With no
//! recorded outcome pending, a reset succeeds.

use vstd::prelude::*;

verus! {

/// Why a reset did not complete.
#[derive(Clone, Copy, PartialEq, Eq, Structural, Debug)]
pub enum ResetError {
    /// The fresh connection could not be established.
    ConnectionFailed,
}

/// `x + 1`, stopping at the top of `u64`.
pub open spec fn sat_inc(x: u64) -> u64 {
    if x == u64::MAX {
        x
    } else {
        (x + 1) as u64
    }
}

/// Owner of the network client.
pub struct NetworkClientManager {
    /// Outcomes of the upcoming reset attempts, soonest first.
    pub upcoming: Vec<bool>,
    /// How many resets have been attempted.
    pub resets_attempted: u64,
    /// How many resets have completed successfully.
    pub resets_completed: u64,
}

/// The outcome the next reset will have.
pub open spec fn next_outcome(m: NetworkClientManager) -> bool {
    if m.upcoming@.len() > 0 {
        m.upcoming@[0]
    } else {
        true
    }
}

/// How one reset changes the manager, whatever its outcome: the outcome is
/// consumed, the attempt is counted, and a success is counted as completed.
pub open spec fn reset_applied(pre: NetworkClientManager, post: NetworkClientManager) -> bool {
    &&& post.upcoming@ == if pre.upcoming@.len() > 0 {
        pre.upcoming@.skip(1)
    } else {
        pre.upcoming@
    }
    &&& post.resets_attempted == sat_inc(pre.resets_attempted)
    &&& post.resets_completed == if next_outcome(pre) {
        sat_inc(pre.resets_completed)
    } else {
        pre.resets_completed
    }
}

impl NetworkClientManager {
    /// A manager with no recorded outcomes: every reset succeeds.
    pub fn new() -> (manager: Self)
        ensures
            manager.upcoming@ == Seq::<bool>::empty(),
            manager.resets_attempted == 0,
            manager.resets_completed == 0,
    {
        NetworkClientManager { upcoming: Vec::new(), resets_attempted: 0, resets_completed: 0 }
    }

    /// Record the outcome of a further upcoming reset attempt.
    pub fn plan_outcome(&mut self, ok: bool)
        ensures
            final(self).upcoming@ == old(self).upcoming@.push(ok),
            final(self).resets_attempted == old(self).resets_attempted,
            final(self).resets_completed == old(self).resets_completed,
    {
        self.upcoming.push(ok);
    }

    /// Reset the client: consume the next outcome and report it.
    pub fn reset(&mut self) -> (r: Result<(), ResetError>)
        ensures
            reset_applied(*old(self), *final(self)),
            r is Ok <==> next_outcome(*old(self)),
    {
        let ok = if self.upcoming.len() > 0 {
            let first = self.upcoming.remove(0);
            proof {
                assert(self.upcoming@ =~= old(self).upcoming@.skip(1));
            }
            first
        } else {
            true
        };
        if self.resets_attempted < u64::MAX {
            self.resets_attempted = self.resets_attempted + 1;
        }
        if ok {
            if self.resets_completed < u64::MAX {
                self.resets_completed = self.resets_completed + 1;
            }
            Ok(())
        } else {
            Err(ResetError::ConnectionFailed)
        }
    }
}

} // verus!
