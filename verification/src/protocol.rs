//! The polling protocol: the contract every suspendable unit honors.

use vstd::prelude::*;

verus! {

/// Outcome of one poll of a suspendable unit: either the unit finished its
/// work (`Done`), or it declined to complete and asks to be polled again
/// later (`NotDone`).
#[derive(Clone, Copy, PartialEq, Eq, Structural, Debug)]
pub enum Progress {
    NotDone,
    Done,
}

/// The resumption handle passed into every poll call. A full runtime would
/// let a unit use it to signal "I can make progress; reschedule me". This
/// minimal core never reacts to it: the run loop blindly revisits every
/// not-yet-finished task each cycle, so the handle is a deliberately inert
/// stand-in and callers must not rely on it triggering anything.
pub struct ResumeHandle {
}

impl ResumeHandle {
    pub fn new() -> ResumeHandle {
        ResumeHandle {  }
    }

    /// Signal readiness to be rescheduled. Deliberately inert: the run loop
    /// polls every pending task each cycle regardless.
    pub fn request_wake(&self) {
    }
}

/// A suspendable unit: a resumable computation that can be asked to make
/// progress and either finishes or requests to be asked again.
///
/// `polls_left` is the unit's own measure of how many further polls it needs
/// before it reports `Done`; it reaches zero exactly when the unit finishes.
/// Each poll consumes exactly one unit of the measure, so every implementor
/// completes after finitely many polls and a pool of such units can be
/// drained by a terminating loop. Polling a unit that has already finished
/// (`polls_left() == 0`) is forbidden by the protocol.
pub trait Suspendable {
    /// How many more polls this unit needs before it reports `Done`.
    spec fn polls_left(&self) -> nat;

    fn poll(&mut self, handle: &ResumeHandle) -> (r: Progress)
        requires
            old(self).polls_left() >= 1,
        ensures
            final(self).polls_left() + 1 == old(self).polls_left(),
            (r is Done) <==> final(self).polls_left() == 0,
    ;
}

} // verus!
