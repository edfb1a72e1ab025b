//! The terminal action: announce and request the kill signal.

use vstd::prelude::*;

use crate::action::signal::DefaultSignal;
use crate::output::LineView;
use crate::output::OutputLine;
use crate::output::SIGKILL;
use crate::output::spec_lines;

verus! {

/// What the kill action asks for: the announcement on standard error,
/// then the signal.
pub open spec fn spec_kill_lines(signal: int, delay: bool) -> Seq<LineView> {
    seq![
        LineView::Stderr("\njvmkill is killing current process\n"@),
        LineView::Signal { signal, delay },
    ]
}

/// The unconditional last action: kills the current process.
pub struct Kill {
    pub signal: DefaultSignal,
}

impl Kill {
    pub fn new() -> (r: Kill)
        ensures
            r.signal == (DefaultSignal { signal: SIGKILL, delay: false }),
    {
        Kill { signal: DefaultSignal { signal: SIGKILL, delay: false } }
    }

    /// Announces the kill and requests the signal.
    pub fn execute(&self) -> (r: Vec<OutputLine>)
        ensures
            spec_lines(r@) == spec_kill_lines(self.signal.signal as int, self.signal.delay),
    {
        let mut lines: Vec<OutputLine> = Vec::new();
        lines.push(OutputLine::Stderr(String::from_str("\njvmkill is killing current process\n")));
        lines.push(OutputLine::Signal { signal: self.signal.signal, delay: self.signal.delay });
        proof {
            assert(spec_lines(lines@) =~= spec_kill_lines(
                self.signal.signal as int,
                self.signal.delay,
            ));
        }
        lines
    }
}

} // verus!
