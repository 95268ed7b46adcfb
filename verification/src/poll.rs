//! The decisions of the polling loop: when to draw, when to try again and
//! when to give up.

use vstd::prelude::*;

verus! {

/// How many failures in a row the loop puts up with.
pub const MAX_NET_ERRORS: u32 = 5;

/// How one polling cycle ended.
#[derive(Clone, Copy, Debug, PartialEq, Eq, Structural)]
pub enum CycleResult {
    /// A report was fetched and taken in.
    Updated,
    /// No report could be had, or it could not be taken in.
    Failed,
}

/// What the loop does after a cycle, before it sleeps.
#[derive(Clone, Copy, Debug, PartialEq, Eq, Structural)]
pub enum NextStep {
    /// The first report has come: there is nothing to draw yet.
    Announce,
    /// Draw the chart.
    Plot,
    /// Go on with the next cycle.
    Retry,
    /// Too many cycles have failed in a row: end with the failure.
    GiveUp,
}

/// What the polling loop keeps from one cycle to the next.
#[derive(Clone, Copy, Debug, PartialEq, Eq, Structural)]
pub struct Poller {
    /// The cycles that have succeeded.
    pub niter: u64,
    /// The cycles that have failed since the last one that succeeded.
    pub error_counter: u32,
    /// The milliseconds that the next report is taken to come after the one
    /// before.
    pub elapsed_ms: usize,
    /// The milliseconds between two cycles.
    pub timeout_ms: usize,
}

/// Twice the number, or the largest number where that does not fit.
pub open spec fn doubled(ms: usize) -> usize {
    if ms + ms > usize::MAX {
        usize::MAX
    } else {
        (ms + ms) as usize
    }
}

/// One more, or the largest number where that does not fit.
pub open spec fn one_more(n: int, max: int) -> int {
    if n < max {
        n + 1
    } else {
        max
    }
}

impl Poller {
    /// The loop before its first cycle.
    pub open spec fn start(timeout_ms: usize) -> Poller {
        Poller { niter: 0, error_counter: 0, elapsed_ms: timeout_ms, timeout_ms }
    }

    /// The state after a cycle. A success clears the failures and sets the
    /// interval back to the time between two cycles; a failure is counted and
    /// doubles the interval.
    pub open spec fn after(self, result: CycleResult) -> Poller {
        match result {
            CycleResult::Updated => Poller {
                niter: one_more(self.niter as int, u64::MAX as int) as u64,
                error_counter: 0,
                elapsed_ms: self.timeout_ms,
                timeout_ms: self.timeout_ms,
            },
            CycleResult::Failed => Poller {
                niter: self.niter,
                error_counter: one_more(self.error_counter as int, u32::MAX as int) as u32,
                elapsed_ms: doubled(self.elapsed_ms),
                timeout_ms: self.timeout_ms,
            },
        }
    }

    /// What the loop does after a cycle: after a success it draws, unless it
    /// was the first; after a failure it goes on, unless more than
    /// `MAX_NET_ERRORS` cycles have now failed in a row.
    pub open spec fn step(self, result: CycleResult) -> NextStep {
        match result {
            CycleResult::Updated => if self.niter > 0 {
                NextStep::Plot
            } else {
                NextStep::Announce
            },
            CycleResult::Failed => if self.after(result).error_counter > MAX_NET_ERRORS {
                NextStep::GiveUp
            } else {
                NextStep::Retry
            },
        }
    }

    /// The state after a run of failures.
    pub open spec fn after_failures(self, n: nat) -> Poller
        decreases n,
    {
        if n == 0 {
            self
        } else {
            self.after_failures((n - 1) as nat).after(CycleResult::Failed)
        }
    }

    /// The loop before its first cycle.
    pub fn new(timeout_ms: usize) -> (p: Poller)
        ensures
            p == Poller::start(timeout_ms),
    {
        Poller { niter: 0, error_counter: 0, elapsed_ms: timeout_ms, timeout_ms }
    }

    /// Takes note of how a cycle ended and says what the loop does next.
    pub fn record(&mut self, result: CycleResult) -> (next: NextStep)
        ensures
            *final(self) == old(self).after(result),
            next == old(self).step(result),
    {
        match result {
            CycleResult::Updated => {
                let next = if self.niter > 0 {
                    NextStep::Plot
                } else {
                    NextStep::Announce
                };
                self.error_counter = 0;
                self.elapsed_ms = self.timeout_ms;
                if self.niter < u64::MAX {
                    self.niter = self.niter + 1;
                }
                next
            },
            CycleResult::Failed => {
                if self.error_counter < u32::MAX {
                    self.error_counter = self.error_counter + 1;
                }
                self.elapsed_ms = match self.elapsed_ms.checked_add(self.elapsed_ms) {
                    Some(twice) => twice,
                    None => usize::MAX,
                };
                if self.error_counter > MAX_NET_ERRORS {
                    NextStep::GiveUp
                } else {
                    NextStep::Retry
                }
            },
        }
    }
}

/// After failures in a row, as many as are put up with or fewer, the loop
/// goes on; after one more it gives up.
pub proof fn lemma_gives_up_after_too_many_failures(poller: Poller, n: nat)
    requires
        poller.error_counter == 0,
    ensures
        n <= u32::MAX ==> poller.after_failures(n).error_counter == n,
        n < MAX_NET_ERRORS ==> poller.after_failures(n).step(CycleResult::Failed)
            == NextStep::Retry,
        MAX_NET_ERRORS <= n < u32::MAX ==> poller.after_failures(n).step(CycleResult::Failed)
            == NextStep::GiveUp,
    decreases n,
{
    if n > 0 {
        lemma_gives_up_after_too_many_failures(poller, (n - 1) as nat);
    }
}

/// A success after any state clears the failures and sets the interval back.
pub proof fn lemma_success_resets(poller: Poller)
    ensures
        poller.after(CycleResult::Updated).error_counter == 0,
        poller.after(CycleResult::Updated).elapsed_ms == poller.timeout_ms,
        poller.after(CycleResult::Updated).step(CycleResult::Failed) == NextStep::Retry,
{
}

} // verus!
