//! What the response engine asks the outside world to do.
//!
//! Diagnostics are computed here but performed at the edge: the engine
//! hands back an ordered list of output lines, heap-dump requests and
//! signals, and the binding layer plays them in order.  The text carried
//! by `Out` and `Err` is exactly what the streams receive, newlines
//! included.

use vstd::prelude::*;

verus! {

/// The signal that ends the process.
pub const SIGKILL: i32 = 9;

/// The signal that triggers the host's own thread dump.
pub const SIGQUIT: i32 = 3;

/// One requested effect, in pipeline order.
#[derive(Debug)]
pub enum OutputLine {
    /// Text for standard output.
    Stdout(String),
    /// Text for standard error.
    Stderr(String),
    /// A request to dump the heap at this path.
    DumpRequest(String),
    /// A signal for the current process; `delay` asks for a pause
    /// afterwards so buffered output can flush.
    Signal { signal: i32, delay: bool },
}

/// The mathematical shape of one requested effect.
pub enum LineView {
    Stdout(Seq<char>),
    Stderr(Seq<char>),
    DumpRequest(Seq<char>),
    Signal { signal: int, delay: bool },
}

impl View for OutputLine {
    type V = LineView;

    open spec fn view(&self) -> LineView {
        match self {
            OutputLine::Stdout(s) => LineView::Stdout(s@),
            OutputLine::Stderr(s) => LineView::Stderr(s@),
            OutputLine::DumpRequest(s) => LineView::DumpRequest(s@),
            OutputLine::Signal { signal, delay } => LineView::Signal {
                signal: *signal as int,
                delay: *delay,
            },
        }
    }
}

/// The views of a list of effects.
pub open spec fn spec_lines(v: Seq<OutputLine>) -> Seq<LineView> {
    v.map_values(|l: OutputLine| l@)
}

} // verus!
