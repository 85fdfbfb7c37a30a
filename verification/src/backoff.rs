use vstd::prelude::*;

verus! {

/// The longest wait between two attempts to connect or to bind unless a
/// socket is told otherwise, in milliseconds.
pub const DEFAULT_INTERVAL_MAX_MS: u64 = 1000;

/// The wait before a new attempt to connect or to bind, in milliseconds:
/// it doubles with each failure up to a cap, and starts over once an attempt
/// has succeeded.
#[derive(Copy, Clone, Debug, PartialEq, Eq, Structural)]
pub struct Backoff {
    initial: u64,
    cap: u64,
    upcoming: u64,
}

/// Twice a wait, but no more than the cap.
pub open spec fn doubled(wait: u64, cap: u64) -> u64 {
    if 2 * wait <= cap {
        (2 * wait) as u64
    } else {
        cap
    }
}

/// The wait after `failures` failures in a row.
pub open spec fn wait_after(initial: u64, cap: u64, failures: nat) -> u64
    decreases failures,
{
    if failures == 0 {
        initial
    } else {
        doubled(wait_after(initial, cap, (failures - 1) as nat), cap)
    }
}

impl Backoff {
    /// The first wait.
    pub closed spec fn initial(&self) -> u64 {
        self.initial
    }

    /// The longest wait: the maximum that was given, or the first wait if
    /// that is longer.
    pub closed spec fn cap(&self) -> u64 {
        self.cap
    }

    /// The wait before the next attempt.
    pub closed spec fn upcoming(&self) -> u64 {
        self.upcoming
    }

    /// The first wait is no longer than the cap, and the upcoming wait lies
    /// between them.
    pub open spec fn wf(&self) -> bool {
        self.initial() <= self.upcoming() <= self.cap()
    }

    pub fn new(initial: u64, max: u64) -> (backoff: Backoff)
        ensures
            backoff.wf(),
            backoff.initial() == initial,
            backoff.cap() == (if max < initial {
                initial
            } else {
                max
            }),
            backoff.upcoming() == initial,
    {
        let cap = if max < initial {
            initial
        } else {
            max
        };
        Backoff { initial, cap, upcoming: initial }
    }

    /// An attempt has failed: says how long to wait before the next, and
    /// doubles the wait after that, up to the cap.
    pub fn next_delay(&mut self) -> (wait: u64)
        requires
            old(self).wf(),
        ensures
            final(self).wf(),
            wait == old(self).upcoming(),
            final(self).initial() == old(self).initial(),
            final(self).cap() == old(self).cap(),
            final(self).upcoming() == doubled(old(self).upcoming(), old(self).cap()),
    {
        let wait = self.upcoming;
        self.upcoming = if wait <= self.cap / 2 {
            wait * 2
        } else {
            self.cap
        };
        wait
    }

    /// An attempt has succeeded: the next wait is the first one again.
    pub fn reset(&mut self)
        requires
            old(self).wf(),
        ensures
            final(self).wf(),
            final(self).initial() == old(self).initial(),
            final(self).cap() == old(self).cap(),
            final(self).upcoming() == old(self).initial(),
    {
        self.upcoming = self.initial;
    }
}

/// The waits never go beyond the cap, and never get shorter from one
/// failure to the next.
pub proof fn waits_grow_up_to_the_cap(initial: u64, cap: u64, failures: nat)
    requires
        initial <= cap,
    ensures
        initial <= wait_after(initial, cap, failures) <= cap,
        wait_after(initial, cap, failures) <= wait_after(initial, cap, failures + 1),
    decreases failures,
{
    if failures > 0 {
        waits_grow_up_to_the_cap(initial, cap, (failures - 1) as nat);
    }
}

} // verus!
