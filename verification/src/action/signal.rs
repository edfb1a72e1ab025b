//! The description of a process signal an action wants delivered.

use vstd::prelude::*;

verus! {

/// Which signal to deliver to the current process, and whether to pause
/// afterwards so buffered diagnostic output can flush.
#[derive(Clone, Copy, Debug, PartialEq, Eq, Structural)]
pub struct DefaultSignal {
    pub delay: bool,
    pub signal: i32,
}

impl DefaultSignal {
    pub fn delay(&self) -> (r: bool)
        ensures
            r == self.delay,
    {
        self.delay
    }

    pub fn signal(&self) -> (r: i32)
        ensures
            r == self.signal,
    {
        self.signal
    }
}

} // verus!
