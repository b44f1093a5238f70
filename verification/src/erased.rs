//! Type erasure for tasks: one enum that can hold any of the library's
//! unit shapes, so a single pool holds heterogeneous jobs uniformly.

use vstd::prelude::*;

use crate::protocol::Progress;
use crate::protocol::ResumeHandle;
use crate::protocol::Suspendable;
use crate::staged::StagedJob;
use crate::yielding::YieldPoint;
use crate::yielding::YieldingJob;

verus! {

/// An owned, type-erased suspendable unit: the uniform shape in which the
/// executor's pool stores otherwise different job implementations.
pub enum TaskUnit {
    Pause(YieldPoint),
    Counted(YieldingJob),
    Staged(StagedJob),
}

impl Suspendable for TaskUnit {
    open spec fn polls_left(&self) -> nat {
        match *self {
            TaskUnit::Pause(y) => y.polls_left(),
            TaskUnit::Counted(j) => j.polls_left(),
            TaskUnit::Staged(s) => s.polls_left(),
        }
    }

    fn poll(&mut self, handle: &ResumeHandle) -> (r: Progress) {
        match self {
            TaskUnit::Pause(y) => y.poll(handle),
            TaskUnit::Counted(j) => j.poll(handle),
            TaskUnit::Staged(s) => s.poll(handle),
        }
    }
}

} // verus!
