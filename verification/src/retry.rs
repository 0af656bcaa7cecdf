//! The retry loop around one download attempt.
//!
//! Attempts are strictly sequential: on failure the caller waits the
//! configured delay and tries again, reusing the same output path so a
//! partial download can be resumed. The loop is unbounded by design;
//! this module is the loop's decision core, counting attempts and
//! telling the caller what to do next.

use vstd::prelude::*;

verus! {

/// What the caller does after one attempt.
#[derive(Clone, Copy, Debug, PartialEq, Eq, Structural)]
pub enum RetryDecision {
    /// The attempt succeeded after this many invocations in all.
    Succeeded { attempts: u64 },
    /// The attempt failed: wait this many seconds, then try again.
    RetryAfter { delay_secs: u64 },
}

/// The state carried across attempts: how many were made, and the
/// fixed delay between them.
pub struct RetryLoop {
    pub attempts: u64,
    pub delay_secs: u64,
}

impl RetryLoop {
    pub fn new(delay_secs: u64) -> (r: RetryLoop)
        ensures
            r.attempts == 0,
            r.delay_secs == delay_secs,
    {
        RetryLoop { attempts: 0, delay_secs }
    }

    /// Record the outcome of one invocation of the attempt function:
    /// success ends the loop with the exact invocation count, failure
    /// asks the caller to wait the configured delay and retry.
    pub fn record_attempt(&mut self, success: bool) -> (r: RetryDecision)
        requires
            old(self).attempts < u64::MAX,
        ensures
            final(self).attempts == old(self).attempts + 1,
            final(self).delay_secs == old(self).delay_secs,
            success ==> r == (RetryDecision::Succeeded { attempts: (old(self).attempts + 1) as u64 }),
            !success ==> r == (RetryDecision::RetryAfter { delay_secs: old(self).delay_secs }),
    {
        self.attempts = self.attempts + 1;
        if success {
            RetryDecision::Succeeded { attempts: self.attempts }
        } else {
            RetryDecision::RetryAfter { delay_secs: self.delay_secs }
        }
    }
}

} // verus!
