//! The yield primitive and a task body built from repeated yields.

use vstd::prelude::*;

use crate::protocol::Progress;
use crate::protocol::ResumeHandle;
use crate::protocol::Suspendable;

verus! {

/// The yield primitive: a reusable suspendable unit that inserts exactly one
/// extra scheduling round-trip at its call site. Its whole state is whether
/// it has already offered its one suspension, plus whether it has finished.
/// First poll: `NotDone`; every poll after that: `Done`, without changing
/// state again.
#[derive(Clone, Copy, PartialEq, Eq, Structural, Debug)]
pub struct YieldPoint {
    pub offered: bool,
    pub finished: bool,
}

impl YieldPoint {
    pub fn new() -> (y: YieldPoint)
        ensures
            !y.offered,
            !y.finished,
            y.polls_left() == 2,
    {
        YieldPoint { offered: false, finished: false }
    }

    /// Poll the yield point outside the protocol's "never poll after `Done`"
    /// rule: it returns `NotDone` exactly once (on its first poll) and
    /// `Done` on every poll thereafter, idempotently.
    pub fn poll_step(&mut self, handle: &ResumeHandle) -> (r: Progress)
        ensures
            old(self).finished ==> (r is Done) && *final(self) == *old(self),
            !old(self).finished && old(self).offered ==> (r is Done)
                && final(self).offered && final(self).finished,
            !old(self).finished && !old(self).offered ==> (r is NotDone)
                && final(self).offered && !final(self).finished,
    {
        if self.finished {
            Progress::Done
        } else if !self.offered {
            self.offered = true;
            Progress::NotDone
        } else {
            self.finished = true;
            Progress::Done
        }
    }
}

impl Suspendable for YieldPoint {
    open spec fn polls_left(&self) -> nat {
        if self.finished {
            0
        } else if self.offered {
            1
        } else {
            2
        }
    }

    fn poll(&mut self, handle: &ResumeHandle) -> (r: Progress) {
        self.poll_step(handle)
    }
}

/// A task body with a chosen number of explicit suspension points: it gives
/// up its turn `yields_left` more times and then completes. A unit that
/// yields `n` times is polled exactly `n + 1` times before reaching `Done`.
#[derive(Clone, Copy, PartialEq, Eq, Structural, Debug)]
pub struct YieldingJob {
    pub yields_left: u64,
    pub finished: bool,
}

impl YieldingJob {
    /// A fresh job that will yield `yields` times and then complete.
    pub fn new(yields: u64) -> (job: YieldingJob)
        ensures
            job.yields_left == yields,
            !job.finished,
            job.polls_left() == yields + 1,
    {
        YieldingJob { yields_left: yields, finished: false }
    }
}

impl Suspendable for YieldingJob {
    open spec fn polls_left(&self) -> nat {
        if self.finished {
            0
        } else {
            (self.yields_left + 1) as nat
        }
    }

    fn poll(&mut self, handle: &ResumeHandle) -> (r: Progress) {
        if self.yields_left == 0 {
            self.finished = true;
            Progress::Done
        } else {
            self.yields_left = self.yields_left - 1;
            Progress::NotDone
        }
    }
}

} // verus!
