//! The thread-dump action: announce, then ask the host for its own
//! thread dump via the quit signal, with a pause for the output.

use vstd::prelude::*;

use crate::action::signal::DefaultSignal;
use crate::output::LineView;
use crate::output::OutputLine;
use crate::output::SIGQUIT;
use crate::output::spec_lines;

verus! {

/// What the thread-dump action asks for: the banner, then the signal that
/// triggers the host's thread dump.
pub open spec fn spec_thread_dump_lines(signal: int, delay: bool) -> Seq<LineView> {
    seq![LineView::Stdout("\n>>> Thread Dump\n"@), LineView::Signal { signal, delay }]
}

/// The always-run thread-dump action.
pub struct ThreadDump {
    pub signal: DefaultSignal,
}

impl ThreadDump {
    pub fn new() -> (r: ThreadDump)
        ensures
            r.signal == (DefaultSignal { signal: SIGQUIT, delay: true }),
    {
        ThreadDump { signal: DefaultSignal { signal: SIGQUIT, delay: true } }
    }

    /// Announces the dump and requests the signal.
    pub fn execute(&self) -> (r: Vec<OutputLine>)
        ensures
            spec_lines(r@) == spec_thread_dump_lines(self.signal.signal as int, self.signal.delay),
    {
        let mut lines: Vec<OutputLine> = Vec::new();
        lines.push(OutputLine::Stdout(String::from_str("\n>>> Thread Dump\n")));
        lines.push(OutputLine::Signal { signal: self.signal.signal, delay: self.signal.delay });
        proof {
            assert(spec_lines(lines@) =~= spec_thread_dump_lines(
                self.signal.signal as int,
                self.signal.delay,
            ));
        }
        lines
    }
}

} // verus!
