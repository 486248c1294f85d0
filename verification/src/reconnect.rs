//! How the client retries when Discord cannot be reached: a few attempts with
//! a doubling pause between them, capped.

use vstd::prelude::*;

verus! {

/// Attempts made before the client gives up until the next update.
pub const CONNECT_ATTEMPTS: u32 = 5;

/// Longest pause between two attempts, in seconds.
pub const MAX_RECONNECT_DELAY_SECS: u64 = 30;

/// The pause, in seconds, after the `failures`-th failed attempt (counting
/// from 0): one second, doubled each time, capped at `MAX_RECONNECT_DELAY_SECS`.
pub open spec fn backoff_delay(failures: nat) -> nat
    decreases failures,
{
    if failures == 0 {
        1
    } else {
        let doubled = 2 * backoff_delay((failures - 1) as nat);
        if doubled < MAX_RECONNECT_DELAY_SECS {
            doubled
        } else {
            MAX_RECONNECT_DELAY_SECS as nat
        }
    }
}

/// The retry state of one round of connection attempts.
pub struct Backoff {
    failures: u32,
    delay_secs: u64,
}

impl Backoff {
    /// Failed attempts so far in this round.
    pub closed spec fn failures(&self) -> nat {
        self.failures as nat
    }

    /// The state is one that a round of attempts reaches.
    pub closed spec fn wf(&self) -> bool {
        &&& self.failures <= CONNECT_ATTEMPTS
        &&& self.delay_secs == backoff_delay(self.failures as nat)
    }

    /// A new round: no failure yet.
    pub fn new() -> (b: Self)
        ensures
            b.wf(),
            b.failures() == 0,
    {
        Backoff { failures: 0, delay_secs: 1 }
    }

    /// Records a failed attempt. Returns the pause, in seconds, to wait now,
    /// and whether to attempt again after it.
    pub fn on_failure(&mut self) -> (r: (u64, bool))
        requires
            old(self).wf(),
            old(self).failures() < CONNECT_ATTEMPTS,
        ensures
            final(self).wf(),
            final(self).failures() == old(self).failures() + 1,
            r.0 == backoff_delay(old(self).failures()),
            r.1 == (final(self).failures() < CONNECT_ATTEMPTS),
    {
        let pause = self.delay_secs;
        proof {
            lemma_backoff_bounds(self.failures as nat);
        }
        let doubled = self.delay_secs * 2;
        self.delay_secs = if doubled < MAX_RECONNECT_DELAY_SECS {
            doubled
        } else {
            MAX_RECONNECT_DELAY_SECS
        };
        self.failures = self.failures + 1;
        (pause, self.failures < CONNECT_ATTEMPTS)
    }
}

/// Every pause lasts between one second and `MAX_RECONNECT_DELAY_SECS`.
pub proof fn lemma_backoff_bounds(failures: nat)
    ensures
        1 <= backoff_delay(failures) <= MAX_RECONNECT_DELAY_SECS,
    decreases failures,
{
    if failures > 0 {
        lemma_backoff_bounds((failures - 1) as nat);
    }
}

/// A round waits 1, 2, 4, 8 and 16 seconds after its five failed attempts:
/// the cap is not reached within one round.
pub proof fn lemma_backoff_round()
    ensures
        backoff_delay(0) == 1,
        backoff_delay(1) == 2,
        backoff_delay(2) == 4,
        backoff_delay(3) == 8,
        backoff_delay(4) == 16,
        backoff_delay(5) == 30,
{
    reveal_with_fuel(backoff_delay, 6);
}

} // verus!
