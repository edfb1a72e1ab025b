//! The heap-dump action of the newer action set.
//!
//! The configured path may embed a time pattern; it is resolved against
//! the clock, the dump is requested at the resolved path, and the path is
//! announced.  The action refuses while the host cannot create threads,
//! and reports a path whose time pattern the formatter rejects.

use vstd::prelude::*;

use crate::clock::format_now;
use crate::clock::strftime_ok;
use crate::err::Error;
use crate::output::LineView;
use crate::output::OutputLine;
use crate::output::spec_lines;

verus! {

/// What the heap-dump action asks for once the path resolved: the
/// banner, the dump request, and the announcement.
pub open spec fn spec_heap_dump_lines(resolved: Seq<char>) -> Seq<LineView> {
    seq![
        LineView::Stdout("\n>>> Heap Dump\n"@),
        LineView::DumpRequest(resolved),
        LineView::Stdout("Heap dump written to \""@ + resolved + "\"\n"@),
    ]
}

/// The heap-dump action, configured with a path that may embed a time
/// pattern.
#[derive(Debug)]
pub struct HeapDump {
    pub path: String,
}

impl HeapDump {
    pub fn new(path: String) -> (r: HeapDump)
        ensures
            r.path == path,
    {
        HeapDump { path }
    }

    /// Requests the dump at the resolved path, or reports why it cannot.
    pub fn execute(&self, flags: i32) -> (r: Result<Vec<OutputLine>, Error>)
        ensures
            match r {
                Ok(lines) => !crate::spec_threads_exhausted(flags) && strftime_ok(self.path@) && ({
                    &&& spec_lines(lines@).len() == 3
                    &&& match spec_lines(lines@)[1] {
                        LineView::DumpRequest(p) => spec_lines(lines@) == spec_heap_dump_lines(p),
                        _ => false,
                    }
                }),
                Err(e) => (match e {
                    Error::ActionUnavailableOnThreadExhaustion(m) => crate::spec_threads_exhausted(
                        flags,
                    ) && m@ == "create heap dump"@,
                    Error::Parse(m) => !crate::spec_threads_exhausted(flags) && !strftime_ok(
                        self.path@,
                    ) && m@ == "failed to resolve heap dump path "@ + self.path@,
                    _ => false,
                }),
            },
    {
        if crate::is_threads_exhausted(flags) {
            return Err(
                Error::ActionUnavailableOnThreadExhaustion(String::from_str("create heap dump")),
            );
        }
        let resolved = match format_now(self.path.as_str()) {
            Some(p) => p,
            None => {
                let m = String::from_str("failed to resolve heap dump path ");
                return Err(Error::Parse(m.concat(self.path.as_str())));
            },
        };
        let mut lines: Vec<OutputLine> = Vec::new();
        lines.push(OutputLine::Stdout(String::from_str("\n>>> Heap Dump\n")));
        lines.push(OutputLine::DumpRequest(resolved.clone()));
        let announce = String::from_str("Heap dump written to \"");
        let announce = announce.concat(resolved.as_str());
        let announce = announce.concat("\"\n");
        lines.push(OutputLine::Stdout(announce));
        proof {
            assert(spec_lines(lines@) =~= spec_heap_dump_lines(resolved@));
        }
        Ok(lines)
    }
}

} // verus!
