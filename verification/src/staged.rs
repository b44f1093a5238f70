//! Stage notifications, and a task body that works through fixed stages
//! separated by suspensions, announcing each stage exactly once.

use vstd::prelude::*;

use crate::protocol::Progress;
use crate::protocol::ResumeHandle;
use crate::protocol::Suspendable;

verus! {

/// The observable notification a staged task body emits at each stage of
/// its work: one per nesting level of awaited work, plus a completion
/// notice.
#[derive(Clone, Copy, PartialEq, Eq, Structural, Debug)]
pub enum Stage {
    Level0Await,
    Level1Await,
    Level2Await,
    FinishTesting,
}

/// Record that the outermost level of awaited work is running.
pub fn level_0_await_notify(log: &mut Vec<Stage>)
    ensures
        final(log)@ == old(log)@.push(Stage::Level0Await),
{
    log.push(Stage::Level0Await);
}

/// Record that the middle level of awaited work is running.
pub fn level_1_await_notify(log: &mut Vec<Stage>)
    ensures
        final(log)@ == old(log)@.push(Stage::Level1Await),
{
    log.push(Stage::Level1Await);
}

/// Record that the deepest level of awaited work is running.
pub fn level_2_await_notify(log: &mut Vec<Stage>)
    ensures
        final(log)@ == old(log)@.push(Stage::Level2Await),
{
    log.push(Stage::Level2Await);
}

/// Record that the staged job has finished all of its work.
pub fn finish_testing(log: &mut Vec<Stage>)
    ensures
        final(log)@ == old(log)@.push(Stage::FinishTesting),
{
    log.push(Stage::FinishTesting);
}

/// The order in which a staged job emits its notifications: the outermost
/// level first, then the deepest nested level, then the level above it, and
/// finally the completion notice.
pub open spec fn stage_at(phase: int) -> Stage {
    if phase == 0 {
        Stage::Level0Await
    } else if phase == 1 {
        Stage::Level2Await
    } else if phase == 2 {
        Stage::Level1Await
    } else {
        Stage::FinishTesting
    }
}

/// A task body that performs four pieces of work separated by suspensions:
/// it announces the outermost await, suspends, works through two nested
/// awaits (deepest first) suspending after each, and finally reports
/// completion. `phase` counts the pieces already run; the notifications
/// land in the job's own `log`, each exactly once, never repeated across
/// resumptions.
pub struct StagedJob {
    pub phase: u64,
    pub log: Vec<Stage>,
}

impl StagedJob {
    pub fn new() -> (job: StagedJob)
        ensures
            job.phase == 0,
            job.log@.len() == 0,
            job.polls_left() == 4,
    {
        StagedJob { phase: 0, log: Vec::new() }
    }

    /// Run the next piece of work: emit this phase's notification and
    /// either suspend or, after the last piece, complete.
    pub fn poll_stage(&mut self, handle: &ResumeHandle) -> (r: Progress)
        requires
            old(self).phase <= 3,
        ensures
            final(self).phase == old(self).phase + 1,
            final(self).log@ == old(self).log@.push(stage_at(old(self).phase as int)),
            (r is Done) <==> old(self).phase == 3,
    {
        if self.phase == 0 {
            level_0_await_notify(&mut self.log);
            self.phase = 1;
            Progress::NotDone
        } else if self.phase == 1 {
            level_2_await_notify(&mut self.log);
            self.phase = 2;
            Progress::NotDone
        } else if self.phase == 2 {
            level_1_await_notify(&mut self.log);
            self.phase = 3;
            Progress::NotDone
        } else {
            finish_testing(&mut self.log);
            self.phase = 4;
            Progress::Done
        }
    }
}

impl Suspendable for StagedJob {
    open spec fn polls_left(&self) -> nat {
        if self.phase >= 4 {
            0
        } else {
            (4 - self.phase) as nat
        }
    }

    fn poll(&mut self, handle: &ResumeHandle) -> (r: Progress) {
        self.poll_stage(handle)
    }
}

} // verus!
