//! A minimal, single-threaded cooperative task executor built from first
//! principles: a polling protocol for resumable computations, an explicit
//! yield primitive, a LIFO task pool drained by a run loop, and support for
//! nested and recursively constructed sub-computations.
//!
//! Every scheduling decision the executor makes is recorded in a trace of
//! events, and the trace produced by a run is pinned down exactly by a
//! specification-level model of the LIFO scheduling policy.

pub mod erased;
pub mod executor;
pub mod protocol;
pub mod recursion;
pub mod schedule;
pub mod staged;
pub mod yielding;
