//! Reconnect delays of a worker: exponential backoff with a ceiling.
use vstd::prelude::*;
use vstd::arithmetic::power2::{pow2, lemma_pow2_unfold};

verus! {

/// First reconnect delay of a worker, in seconds.
pub const INITIAL_RECONNECT_DELAY_SECS: u64 = 30;

/// Longest reconnect delay of a worker, in seconds.
pub const MAX_RECONNECT_DELAY_SECS: u64 = 3600;

/// Delay policy for reconnect attempts, in seconds.
pub struct Backoff {
    pub current: u64,
    pub initial: u64,
    pub max: u64,
}

/// `d`, but never above `max`.
pub open spec fn capped(d: u64, max: u64) -> u64 {
    if d > max {
        max
    } else {
        d
    }
}

/// Every delay a backoff built by `new` hands out is at most its maximum.
pub proof fn lemma_delays_never_exceed_max(initial: u64, max: u64, k: nat)
    ensures
        nth_delay(capped(initial, max) as nat, max as nat, k) <= max,
    decreases k,
{
    if k > 0 {
        lemma_delays_never_exceed_max(initial, max, (k - 1) as nat);
    }
}

/// The delay that follows `current`: twice as long, but never above `max`.
pub open spec fn doubled(current: nat, max: nat) -> nat {
    if 2 * current > max {
        max
    } else {
        2 * current
    }
}

/// The delay handed out by the `k`-th call of `next_delay` (counting from 0)
/// on a backoff that starts at `initial`.
pub open spec fn nth_delay(initial: nat, max: nat, k: nat) -> nat
    decreases k,
{
    if k == 0 {
        initial
    } else {
        doubled(nth_delay(initial, max, (k - 1) as nat), max)
    }
}

/// What a worker does once a control-plane session has ended.
pub enum ReconnectAction {
    /// The session ended by process shutdown: stop reconnecting.
    Stop,
    /// The session failed: connect again after this many seconds.
    RetryAfter(u64),
}

impl Backoff {
    /// A backoff in its cold state: the first delay is `initial_secs`,
    /// capped at `max_secs` like every later one.
    pub fn new(initial_secs: u64, max_secs: u64) -> (r: Self)
        ensures
            r.current == capped(initial_secs, max_secs),
            r.initial == capped(initial_secs, max_secs),
            r.max == max_secs,
    {
        let first = if initial_secs > max_secs {
            max_secs
        } else {
            initial_secs
        };
        Backoff { current: first, initial: first, max: max_secs }
    }

    /// Hands out the current delay and doubles the next one, up to `max`.
    pub fn next_delay(&mut self) -> (r: u64)
        ensures
            r == old(self).current,
            final(self).current == doubled(old(self).current as nat, old(self).max as nat),
            final(self).initial == old(self).initial,
            final(self).max == old(self).max,
    {
        let delay = self.current;
        self.current = if self.current > self.max || self.max - self.current < self.current {
            self.max
        } else {
            self.current * 2
        };
        delay
    }

    /// Back to the cold state.
    pub fn reset(&mut self)
        ensures
            final(self).current == old(self).initial,
            final(self).initial == old(self).initial,
            final(self).max == old(self).max,
    {
        self.current = self.initial;
    }

    /// Decides what follows a session that ended cleanly (`clean`) or with a
    /// failure. The delay is not reset on a clean end: a clean end stops the
    /// reconnect loop altogether.
    pub fn after_session(&mut self, clean: bool) -> (r: ReconnectAction)
        ensures
            clean ==> r is Stop && *final(self) == *old(self),
            !clean ==> r == ReconnectAction::RetryAfter(old(self).current) && final(self).current
                == doubled(old(self).current as nat, old(self).max as nat) && final(self).initial
                == old(self).initial && final(self).max == old(self).max,
    {
        if clean {
            ReconnectAction::Stop
        } else {
            ReconnectAction::RetryAfter(self.next_delay())
        }
    }
}

/// Consecutive failures from a cold state wait `d, 2d, 4d, ...`, each delay
/// capped at the configured maximum: the `k`-th delay is `min(d * 2^k, max)`.
pub proof fn lemma_delays_double_until_capped(initial: nat, max: nat, k: nat)
    requires
        initial <= max,
    ensures
        nth_delay(initial, max, k) == if initial * pow2(k) > max {
            max
        } else {
            initial * pow2(k)
        },
    decreases k,
{
    if k == 0 {
        assert(pow2(0) == 1) by {
            vstd::arithmetic::power2::lemma2_to64();
        }
    } else {
        lemma_delays_double_until_capped(initial, max, (k - 1) as nat);
        lemma_pow2_unfold(k);
        let p = pow2((k - 1) as nat);
        assert(initial * pow2(k) == 2 * (initial * p)) by (nonlinear_arith)
            requires
                pow2(k) == 2 * p,
        ;
    }
}

} // verus!
