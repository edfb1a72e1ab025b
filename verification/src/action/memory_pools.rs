//! The memory-usage action of the newer action set.
//!
//! Prints the overall heap and non-heap figures and each memory pool,
//! with a capacity hint for a region over ninety-five percent full, or
//! refuses while the host cannot create threads.

use vstd::prelude::*;

use crate::err::Error;
use crate::jmx::ManagementFactory;
use crate::jmx::MemoryPoolMXBean;
use crate::jmx::MemoryUsage;
use crate::output::LineView;
use crate::output::OutputLine;
use crate::output::spec_lines;
use crate::poolstats::Stats;
use crate::poolstats::spec_hint_for;
use crate::poolstats::spec_nearly_full;
use crate::poolstats::spec_usage_line;
use crate::poolstats::usage_stats;

verus! {

/// One region's report line, hint folded in, newline terminated.
pub open spec fn spec_statistics_line(name: Seq<char>, s: Stats) -> Seq<char> {
    let base = "   "@ + name + ": "@ + spec_usage_line(s);
    let hinted = if spec_nearly_full(s.2 as int, s.3 as int) {
        match spec_hint_for(name) {
            Some(h) => base + "\n      Hint: "@ + name + " is over 95% full. To increase it, "@
                + h + "."@,
            None => base,
        }
    } else {
        base
    };
    hinted + "\n"@
}

/// One region's figures with its name, in the newer report's shape.
#[derive(Debug)]
pub struct Statistics {
    pub committed: i64,
    pub init: i64,
    pub max: i64,
    pub name: String,
    pub used: i64,
}

impl Statistics {
    /// The figures of a named pool.
    pub fn from_memory_pool(memory_pool: &MemoryPoolMXBean) -> (r: Statistics)
        ensures
            r.name@ == memory_pool.name@,
            r.init == memory_pool.usage.init,
            r.used == memory_pool.usage.used,
            r.committed == memory_pool.usage.committed,
            r.max == memory_pool.usage.max,
    {
        Statistics::from_usage(memory_pool.get_name(), memory_pool.get_usage())
    }

    /// The figures of a named region.
    pub fn from_usage(name: String, usage: MemoryUsage) -> (r: Statistics)
        ensures
            r.name == name,
            r.init == usage.init,
            r.used == usage.used,
            r.committed == usage.committed,
            r.max == usage.max,
    {
        Statistics {
            committed: usage.get_committed(),
            init: usage.get_init(),
            max: usage.get_max(),
            name,
            used: usage.get_used(),
        }
    }

    /// Whether the region counts as over ninety-five percent full.
    pub fn is_near_max(&self) -> (r: bool)
        ensures
            r == spec_nearly_full(self.committed as int, self.max as int),
    {
        if self.max > 0 {
            20 * (self.committed as i128) >= 19 * (self.max as i128)
        } else if self.max == 0 {
            self.committed > 0
        } else {
            20 * (self.committed as i128) <= 19 * (self.max as i128)
        }
    }

    /// The region's report line, hint folded in.
    pub fn render(&self) -> (r: String)
        ensures
            r@ == spec_statistics_line(
                self.name@,
                (self.init, self.used, self.committed, self.max),
            ),
    {
        let (line, nearly_full) = usage_stats((self.init, self.used, self.committed, self.max));
        let mut out = String::from_str("   ");
        out.append(self.name.as_str());
        out.append(": ");
        out.append(line.as_str());
        if nearly_full {
            match Self::hint_for(&self.name) {
                Some(hint) => {
                    out.append("\n      Hint: ");
                    out.append(self.name.as_str());
                    out.append(" is over 95% full. To increase it, ");
                    out.append(hint);
                    out.append(".");
                },
                None => {},
            }
        }
        out.append("\n");
        out
    }

    /// The capacity hint recorded for `name`, if any.
    fn hint_for(name: &String) -> (r: Option<&'static str>)
        ensures
            match (r, spec_hint_for(name@)) {
                (Some(a), Some(b)) => a@ == b,
                (None, None) => true,
                _ => false,
            },
    {
        if name.eq(&String::from_str("Heap memory")) {
            Some("increase the container size")
        } else if name.eq(&String::from_str("Metaspace")) {
            Some("set -XX:MaxMetaspaceSize to a suitable value")
        } else if name.eq(&String::from_str("Compressed Class Space")) {
            Some("set -XX:CompressedClassSpaceSize to a suitable value")
        } else {
            None
        }
    }
}

/// What the memory-pools action prints when the host can still create
/// threads.
pub open spec fn spec_memory_pools_lines(
    heap: MemoryUsage,
    non_heap: MemoryUsage,
    pools: Seq<(Seq<char>, MemoryUsage)>,
) -> Seq<LineView> {
    seq![
        LineView::Stdout("\n>>> Memory Pools\n"@),
        LineView::Stdout("Memory usage:\n"@),
        LineView::Stdout(
            spec_statistics_line("Heap memory"@, (heap.init, heap.used, heap.committed, heap.max)),
        ),
        LineView::Stdout(
            spec_statistics_line(
                "Non-heap memory"@,
                (non_heap.init, non_heap.used, non_heap.committed, non_heap.max),
            ),
        ),
        LineView::Stdout("\nMemory pool usage:\n"@),
    ] + pools.map_values(
        |p: (Seq<char>, MemoryUsage)|
            LineView::Stdout(spec_statistics_line(p.0, (p.1.init, p.1.used, p.1.committed, p.1.max))),
    )
}

/// The memory-usage action of the newer action set.
pub struct MemoryPools {}

impl MemoryPools {
    pub fn new() -> (r: MemoryPools) {
        MemoryPools {  }
    }

    /// Prints the memory report, or refuses it while the host cannot
    /// create threads.
    pub fn execute(&self, flags: i32, factory: &ManagementFactory) -> (r: Result<
        Vec<OutputLine>,
        Error,
    >)
        ensures
            match r {
                Ok(lines) => !crate::spec_threads_exhausted(flags) && spec_lines(lines@)
                    == spec_memory_pools_lines(
                    factory.memory.heap,
                    factory.memory.non_heap,
                    factory.pools@.map_values(|p: MemoryPoolMXBean| p@),
                ),
                Err(e) => crate::spec_threads_exhausted(flags) && (match e {
                    Error::ActionUnavailableOnThreadExhaustion(m) => m@ == "dump memory pools"@,
                    _ => false,
                }),
            },
    {
        if crate::is_threads_exhausted(flags) {
            return Err(
                Error::ActionUnavailableOnThreadExhaustion(String::from_str("dump memory pools")),
            );
        }
        let mut lines: Vec<OutputLine> = Vec::new();
        lines.push(OutputLine::Stdout(String::from_str("\n>>> Memory Pools\n")));
        lines.push(OutputLine::Stdout(String::from_str("Memory usage:\n")));
        let m = factory.get_memory_mxbean();
        lines.push(
            OutputLine::Stdout(
                Statistics::from_usage(
                    String::from_str("Heap memory"),
                    m.get_heap_memory_usage(),
                ).render(),
            ),
        );
        lines.push(
            OutputLine::Stdout(
                Statistics::from_usage(
                    String::from_str("Non-heap memory"),
                    m.get_non_heap_memory_usage(),
                ).render(),
            ),
        );
        lines.push(OutputLine::Stdout(String::from_str("\nMemory pool usage:\n")));
        let ghost head = spec_lines(lines@);
        let ghost pool_views = factory.pools@.map_values(|p: MemoryPoolMXBean| p@);
        let ghost pool_line = |p: (Seq<char>, MemoryUsage)|
            LineView::Stdout(spec_statistics_line(p.0, (p.1.init, p.1.used, p.1.committed, p.1.max)));
        let pools = factory.get_memory_pool_mxbeans();
        let mut i: usize = 0;
        while i < pools.len()
            invariant
                i <= pools.len(),
                pools@ == factory.pools@,
                pool_views == factory.pools@.map_values(|p: MemoryPoolMXBean| p@),
                pool_line == (|p: (Seq<char>, MemoryUsage)|
                    LineView::Stdout(
                        spec_statistics_line(p.0, (p.1.init, p.1.used, p.1.committed, p.1.max)),
                    )),
                spec_lines(lines@) =~= head + pool_views.subrange(0, i as int).map_values(
                    pool_line,
                ),
            decreases pools.len() - i,
        {
            let p = &pools[i];
            let s = Statistics::from_memory_pool(p);
            lines.push(OutputLine::Stdout(s.render()));
            proof {
                assert(spec_lines(lines@) =~= lines@.subrange(0, lines@.len() - 1).map_values(
                    |l: OutputLine| l@,
                ).push(lines@.last()@));
                assert(pool_views[i as int] == factory.pools@[i as int]@);
                assert((head + pool_views.subrange(0, i as int).map_values(pool_line)).push(
                    lines@.last()@,
                ) =~= head + pool_views.subrange(0, i as int).map_values(pool_line).push(
                    lines@.last()@,
                ));
                assert(pool_views.subrange(0, i + 1) =~= pool_views.subrange(0, i as int).push(
                    pool_views[i as int],
                ));
                assert(pool_views.subrange(0, i + 1).map_values(pool_line) =~= pool_views.subrange(
                    0,
                    i as int,
                ).map_values(pool_line).push(pool_line(pool_views[i as int])));
            }
            i = i + 1;
        }
        proof {
            assert(pool_views.subrange(0, pools@.len() as int) =~= pool_views);
            assert(spec_lines(lines@) =~= spec_memory_pools_lines(
                factory.memory.heap,
                factory.memory.non_heap,
                pool_views,
            ));
        }
        Ok(lines)
    }
}

} // verus!
