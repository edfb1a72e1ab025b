//! The memory-usage report of the older action set.
//!
//! `print_stats` renders one region's figures as a line, with a capacity
//! hint when the region is over ninety-five percent full; `on_oom` renders
//! the whole report, or refuses it while the host cannot create threads,
//! since further introspection calls are unsafe then.

use vstd::prelude::*;

use crate::err::Error;
use crate::jmx::ManagementFactory;
use crate::jmx::MemoryPoolMXBean;
use crate::jmx::MemoryUsage;
use crate::text::spec_idec;
use crate::text::idec;

verus! {

/// The four figures of one region in report order: init, used, committed,
/// max.
pub type Stats = (i64, i64, i64, i64);

/// Whether a region counts as over ninety-five percent full: committed is
/// at least 95% of a positive max.  A region whose max is zero counts as
/// full exactly when something is committed; a negative max (the host's
/// "undefined") counts as full only for a committed amount at least as
/// negative.
pub open spec fn spec_nearly_full(committed: int, max: int) -> bool {
    if max > 0 {
        20 * committed >= 19 * max
    } else if max == 0 {
        committed > 0
    } else {
        20 * committed <= 19 * max
    }
}

/// The figures of one region as a line: `init I, used U, committed C, max M`.
pub open spec fn spec_usage_line(s: Stats) -> Seq<char> {
    "init "@ + spec_idec(s.0 as int) + ", used "@ + spec_idec(s.1 as int) + ", committed "@
        + spec_idec(s.2 as int) + ", max "@ + spec_idec(s.3 as int)
}

/// The capacity hint for the regions that have one.
pub open spec fn spec_hint_for(name: Seq<char>) -> Option<Seq<char>> {
    if name == "Heap memory"@ {
        Some("increase the container size"@)
    } else if name == "Metaspace"@ {
        Some("set -XX:MaxMetaspaceSize to a suitable value"@)
    } else if name == "Compressed Class Space"@ {
        Some("set -XX:CompressedClassSpaceSize to a suitable value"@)
    } else {
        None
    }
}

/// One region's part of the report: its line, then its hint when the
/// region is nearly full and a hint exists for it.
pub open spec fn spec_region_report(name: Seq<char>, s: Stats) -> Seq<char> {
    let line = "   "@ + name + ": "@ + spec_usage_line(s) + "\n"@;
    if spec_nearly_full(s.2 as int, s.3 as int) {
        match spec_hint_for(name) {
            Some(h) => line + "      Hint: "@ + name + " is over 95% full. To increase it, "@ + h
                + ".\n"@,
            None => line,
        }
    } else {
        line
    }
}

/// The pool section of the report, one region after the other.
pub open spec fn spec_pool_reports(pools: Seq<(Seq<char>, MemoryUsage)>) -> Seq<char>
    decreases pools.len(),
{
    if pools.len() == 0 {
        Seq::<char>::empty()
    } else {
        spec_region_report(
            pools[0].0,
            (pools[0].1.init, pools[0].1.used, pools[0].1.committed, pools[0].1.max),
        ) + spec_pool_reports(pools.subrange(1, pools.len() as int))
    }
}

/// The whole report: overall heap and non-heap figures, then each pool.
pub open spec fn spec_pool_stats_report(
    heap: MemoryUsage,
    non_heap: MemoryUsage,
    pools: Seq<(Seq<char>, MemoryUsage)>,
) -> Seq<char> {
    "\nMemory usage:\n"@ + spec_region_report(
        "Heap memory"@,
        (heap.init, heap.used, heap.committed, heap.max),
    ) + spec_region_report(
        "Non-heap memory"@,
        (non_heap.init, non_heap.used, non_heap.committed, non_heap.max),
    ) + "\nMemory pool usage:\n"@ + spec_pool_reports(pools)
}

/// The four figures of a modelled memory region, in report order.
pub fn usage_statistics(usage: &MemoryUsage) -> (r: Stats)
    ensures
        r == (usage.init, usage.used, usage.committed, usage.max),
{
    (usage.get_init(), usage.get_used(), usage.get_committed(), usage.get_max())
}

/// Renders one region's figures and says whether the region is nearly
/// full.
pub fn usage_stats(usage: Stats) -> (r: (String, bool))
    ensures
        r.0@ == spec_usage_line(usage),
        r.1 == spec_nearly_full(usage.2 as int, usage.3 as int),
{
    let (init, used, committed, max) = usage;
    let nearly_full: bool = if max > 0 {
        20 * (committed as i128) >= 19 * (max as i128)
    } else if max == 0 {
        committed > 0
    } else {
        20 * (committed as i128) <= 19 * (max as i128)
    };
    let line = String::from_str("init ");
    let line = line.concat(idec(init).as_str());
    let line = line.concat(", used ");
    let line = line.concat(idec(used).as_str());
    let line = line.concat(", committed ");
    let line = line.concat(idec(committed).as_str());
    let line = line.concat(", max ");
    let line = line.concat(idec(max).as_str());
    (line, nearly_full)
}

/// The memory-usage action of the older action set.
pub struct PoolStats {
    pool_hint: Vec<(String, String)>,
}

impl PoolStats {
    /// The hint table is exactly the three regions that have one.
    pub closed spec fn wf(&self) -> bool {
        self.pool_hint@.len() == 3 && self.pool_hint@[0].0@ == "Heap memory"@
            && self.pool_hint@[0].1@ == "increase the container size"@ && self.pool_hint@[1].0@
            == "Metaspace"@ && self.pool_hint@[1].1@ == "set -XX:MaxMetaspaceSize to a suitable value"@
            && self.pool_hint@[2].0@ == "Compressed Class Space"@ && self.pool_hint@[2].1@
            == "set -XX:CompressedClassSpaceSize to a suitable value"@
    }

    pub fn new() -> (r: PoolStats)
        ensures
            r.wf(),
    {
        let mut pool_hint: Vec<(String, String)> = Vec::new();
        pool_hint.push(
            (String::from_str("Heap memory"), String::from_str("increase the container size")),
        );
        pool_hint.push(
            (
                String::from_str("Metaspace"),
                String::from_str("set -XX:MaxMetaspaceSize to a suitable value"),
            ),
        );
        pool_hint.push(
            (
                String::from_str("Compressed Class Space"),
                String::from_str("set -XX:CompressedClassSpaceSize to a suitable value"),
            ),
        );
        PoolStats { pool_hint }
    }

    /// The hint recorded for `name`, if any.
    fn hint_for(&self, name: &String) -> (r: Option<String>)
        requires
            self.wf(),
        ensures
            match (r, spec_hint_for(name@)) {
                (Some(a), Some(b)) => a@ == b,
                (None, None) => true,
                _ => false,
            },
    {
        if name.eq(&self.pool_hint[0].0) {
            Some(self.pool_hint[0].1.clone())
        } else if name.eq(&self.pool_hint[1].0) {
            Some(self.pool_hint[1].1.clone())
        } else if name.eq(&self.pool_hint[2].0) {
            Some(self.pool_hint[2].1.clone())
        } else {
            None
        }
    }

    /// Appends one region's part of the report to `output`.
    pub fn print_stats(&self, name: String, stats: Stats, output: &mut String)
        requires
            self.wf(),
        ensures
            final(output)@ == old(output)@ + spec_region_report(name@, stats),
    {
        let (line, pool_nearly_full) = usage_stats(stats);
        output.append("   ");
        output.append(name.as_str());
        output.append(": ");
        output.append(line.as_str());
        output.append("\n");
        if pool_nearly_full {
            match self.hint_for(&name) {
                Some(hint) => {
                    output.append("      Hint: ");
                    output.append(name.as_str());
                    output.append(" is over 95% full. To increase it, ");
                    output.append(hint.as_str());
                    output.append(".\n");
                },
                None => {},
            }
        }
    }

    /// Renders the whole memory-usage report, or refuses it while the host
    /// cannot create threads.
    pub fn on_oom(&self, factory: &ManagementFactory, resource_exhaustion_flags: i32) -> (r: Result<
        String,
        Error,
    >)
        requires
            self.wf(),
        ensures
            match r {
                Ok(out) => !crate::spec_threads_exhausted(resource_exhaustion_flags) && out@
                    == spec_pool_stats_report(
                    factory.memory.heap,
                    factory.memory.non_heap,
                    factory.pools@.map_values(|p: MemoryPoolMXBean| p@),
                ),
                Err(e) => crate::spec_threads_exhausted(resource_exhaustion_flags) && (match e {
                    Error::ActionUnavailableOnThreadExhaustion(m) => m@
                        == "determine memory usage statistics"@,
                    _ => false,
                }),
            },
    {
        if crate::is_threads_exhausted(resource_exhaustion_flags) {
            return Err(
                Error::ActionUnavailableOnThreadExhaustion(
                    String::from_str("determine memory usage statistics"),
                ),
            );
        }
        let mut output = String::from_str("\nMemory usage:\n");
        let m = factory.get_memory_mxbean();
        self.print_stats(
            String::from_str("Heap memory"),
            usage_statistics(&m.get_heap_memory_usage()),
            &mut output,
        );
        self.print_stats(
            String::from_str("Non-heap memory"),
            usage_statistics(&m.get_non_heap_memory_usage()),
            &mut output,
        );
        output.append("\nMemory pool usage:\n");
        let pools = factory.get_memory_pool_mxbeans();
        let ghost pool_views = factory.pools@.map_values(|p: MemoryPoolMXBean| p@);
        let mut i: usize = 0;
        proof {
            assert(pool_views.subrange(0, pool_views.len() as int) =~= pool_views);
        }
        let ghost head = output@;
        while i < pools.len()
            invariant
                i <= pools.len(),
                pools@ == factory.pools@,
                pool_views == factory.pools@.map_values(|p: MemoryPoolMXBean| p@),
                self.wf(),
                output@ == head + spec_pool_reports(pool_views.subrange(0, i as int)),
            decreases pools.len() - i,
        {
            let p = &pools[i];
            let name = p.get_name();
            let stats = usage_statistics(&p.get_usage());
            self.print_stats(name, stats, &mut output);
            proof {
                let k = i as int;
                assert(pool_views[k] == factory.pools@[k]@);
                lemma_pool_reports_snoc(pool_views, k);
            }
            i = i + 1;
        }
        proof {
            assert(pool_views.subrange(0, pools@.len() as int) =~= pool_views);
        }
        Ok(output)
    }
}

/// Extending the rendered prefix of the pool section by one region.
proof fn lemma_pool_reports_snoc(pools: Seq<(Seq<char>, MemoryUsage)>, k: int)
    requires
        0 <= k < pools.len(),
    ensures
        spec_pool_reports(pools.subrange(0, k + 1)) == spec_pool_reports(pools.subrange(0, k))
            + spec_region_report(
            pools[k].0,
            (pools[k].1.init, pools[k].1.used, pools[k].1.committed, pools[k].1.max),
        ),
    decreases k,
{
    let a = pools.subrange(0, k + 1);
    if k == 0 {
        let empty = Seq::<(Seq<char>, MemoryUsage)>::empty();
        let region = spec_region_report(
            pools[0].0,
            (pools[0].1.init, pools[0].1.used, pools[0].1.committed, pools[0].1.max),
        );
        assert(a[0] == pools[0]);
        assert(a.subrange(1, a.len() as int) =~= empty);
        assert(pools.subrange(0, 0) =~= empty);
        assert(spec_pool_reports(empty) == Seq::<char>::empty());
        assert(spec_pool_reports(a) == region + Seq::<char>::empty());
        assert(region + Seq::<char>::empty() =~= Seq::<char>::empty() + region);
    } else {
        let t = pools.subrange(1, pools.len() as int);
        lemma_pool_reports_snoc(t, k - 1);
        assert(a[0] == pools[0]);
        assert(a.subrange(1, a.len() as int) =~= t.subrange(0, k));
        assert(pools.subrange(0, k).subrange(1, k) =~= t.subrange(0, k - 1));
        assert(t[k - 1] == pools[k]);
        assert(spec_pool_reports(a) == spec_region_report(
            a[0].0,
            (a[0].1.init, a[0].1.used, a[0].1.committed, a[0].1.max),
        ) + spec_pool_reports(t.subrange(0, k)));
        assert(spec_pool_reports(pools.subrange(0, k)) == spec_region_report(
            pools[0].0,
            (pools[0].1.init, pools[0].1.used, pools[0].1.committed, pools[0].1.max),
        ) + spec_pool_reports(t.subrange(0, k - 1)));
        assert((spec_region_report(
            pools[0].0,
            (pools[0].1.init, pools[0].1.used, pools[0].1.committed, pools[0].1.max),
        ) + (spec_pool_reports(t.subrange(0, k - 1)) + spec_region_report(
            t[k - 1].0,
            (t[k - 1].1.init, t[k - 1].1.used, t[k - 1].1.committed, t[k - 1].1.max),
        ))) =~= ((spec_region_report(
            pools[0].0,
            (pools[0].1.init, pools[0].1.used, pools[0].1.committed, pools[0].1.max),
        ) + spec_pool_reports(t.subrange(0, k - 1))) + spec_region_report(
            t[k - 1].0,
            (t[k - 1].1.init, t[k - 1].1.used, t[k - 1].1.committed, t[k - 1].1.max),
        )));
    }
}

} // verus!
