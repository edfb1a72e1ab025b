//! A resource-exhaustion response engine for a managed runtime: a
//! debounce heuristic over a timestamp ring decides whether a bursty
//! stream of exhaustion notifications warrants action; a single-pass,
//! tag-based heap census builds a per-class histogram without double
//! counting; and an ordered, partial-failure-tolerant action pipeline
//! runs the configured diagnostics before requesting the unconditional
//! process kill.  The engine computes decisions and text; the binding
//! layer around it performs the requested effects.

use vstd::prelude::*;

pub mod action;
pub mod clock;
pub mod context;
pub mod controller;
pub mod err;
pub mod events;
pub mod heap;
pub mod jmx;
pub mod output;
pub mod parameters;
pub mod parms;
pub mod parse;
pub mod poolstats;
pub mod text;
pub mod threshold;

verus! {

/// Exhaustion flag bit reported by the host runtime when a thread could not
/// be created.
pub const RESOURCE_EXHAUSTED_THREADS: i32 = 4;

/// True when the notification flags carry the thread-exhaustion bit.
pub fn is_threads_exhausted(flags: i32) -> (r: bool)
    ensures
        r == spec_threads_exhausted(flags),
{
    flags & RESOURCE_EXHAUSTED_THREADS == RESOURCE_EXHAUSTED_THREADS
}

pub open spec fn spec_threads_exhausted(flags: i32) -> bool {
    flags & RESOURCE_EXHAUSTED_THREADS == RESOURCE_EXHAUSTED_THREADS
}

} // verus!
