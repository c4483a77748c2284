//! The wait between two attempts to reach the relay: it doubles with each
//! failure up to a cap, and a share of it is left to chance.

use vstd::prelude::*;

verus! {

/// First wait, in milliseconds, unless configured otherwise.
pub const DEFAULT_BACKOFF_BASE_MS: u64 = 1_000;

/// Longest wait, in milliseconds, unless configured otherwise.
pub const DEFAULT_BACKOFF_CAP_MS: u64 = 30_000;

/// The first and the longest wait, in milliseconds.
#[derive(Clone, Copy, Debug, PartialEq, Eq, Structural)]
pub struct Backoff {
    pub base: u64,
    pub cap: u64,
}

/// The wait before attempt number `attempt` (counted from zero), without
/// jitter: the base doubled `attempt` times, and never more than the cap.
pub open spec fn backoff_delay(base: u64, cap: u64, attempt: nat) -> nat
    decreases attempt,
{
    if attempt == 0 {
        if base <= cap {
            base as nat
        } else {
            cap as nat
        }
    } else {
        let earlier = backoff_delay(base, cap, (attempt - 1) as nat);
        if 2 * earlier <= cap {
            2 * earlier
        } else {
            cap as nat
        }
    }
}

/// A wait with jitter: `entropy` takes up to half of it away.
pub open spec fn jittered(delay: u64, entropy: u64) -> u64 {
    (delay - (entropy as int) % (delay as int / 2 + 1)) as u64
}

/// No wait is longer than the cap.
pub proof fn lemma_backoff_bounded(base: u64, cap: u64, attempt: nat)
    ensures
        backoff_delay(base, cap, attempt) <= cap,
    decreases attempt,
{
    if attempt > 0 {
        lemma_backoff_bounded(base, cap, (attempt - 1) as nat);
    }
}

/// A wait that has reached the cap, or is zero, stays as it is.
pub proof fn lemma_backoff_settles(base: u64, cap: u64, reached: nat, attempt: nat)
    requires
        reached <= attempt,
        backoff_delay(base, cap, reached) == 0 || backoff_delay(base, cap, reached) == cap,
    ensures
        backoff_delay(base, cap, attempt) == backoff_delay(base, cap, reached),
    decreases attempt,
{
    if reached < attempt {
        lemma_backoff_settles(base, cap, reached, (attempt - 1) as nat);
    }
}

impl Default for Backoff {
    fn default() -> (r: Backoff)
        ensures
            r == (Backoff { base: 1_000, cap: 30_000 }),
    {
        Backoff { base: DEFAULT_BACKOFF_BASE_MS, cap: DEFAULT_BACKOFF_CAP_MS }
    }
}

impl Backoff {
    /// The wait before attempt number `attempt`, without jitter.
    pub fn delay(&self, attempt: u32) -> (r: u64)
        ensures
            r == backoff_delay(self.base, self.cap, attempt as nat),
            r <= self.cap,
    {
        let mut d: u64 = if self.base <= self.cap {
            self.base
        } else {
            self.cap
        };
        let mut i: u32 = 0;
        while i < attempt && d != 0 && d != self.cap
            invariant
                i <= attempt,
                d == backoff_delay(self.base, self.cap, i as nat),
                d <= self.cap,
            decreases attempt - i,
        {
            d = if d <= self.cap / 2 {
                d * 2
            } else {
                self.cap
            };
            i += 1;
        }
        proof {
            if i < attempt {
                lemma_backoff_settles(self.base, self.cap, i as nat, attempt as nat);
            }
        }
        d
    }

    /// The wait before attempt number `attempt`, with jitter: between half
    /// the plain wait and the whole of it.
    pub fn jittered_delay(&self, attempt: u32, entropy: u64) -> (r: u64)
        ensures
            r == jittered(backoff_delay(self.base, self.cap, attempt as nat) as u64, entropy),
            backoff_delay(self.base, self.cap, attempt as nat) / 2 <= r <= backoff_delay(
                self.base,
                self.cap,
                attempt as nat,
            ),
            r <= self.cap,
    {
        let d: u64 = self.delay(attempt);
        d - entropy % (d / 2 + 1)
    }
}

} // verus!
