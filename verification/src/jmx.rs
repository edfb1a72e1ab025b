//! Plain-value models of the host's management beans.
//!
//! The memory figures of the managed runtime reach this crate as numbers:
//! the binding layer reads them from the host's management objects and
//! builds these records, which the diagnostic actions then consume.  A
//! heap-dump request is recorded on the diagnostic bean; the binding layer
//! performs the recorded requests.

use vstd::prelude::*;

verus! {

/// The four figures of one memory region, as the host reports them.
/// `max` may be negative where the host leaves the bound undefined.
#[derive(Clone, Copy, Debug, PartialEq, Eq, Structural)]
pub struct MemoryUsage {
    pub init: i64,
    pub used: i64,
    pub committed: i64,
    pub max: i64,
}

impl MemoryUsage {
    pub fn new(init: i64, used: i64, committed: i64, max: i64) -> (r: MemoryUsage)
        ensures
            r == (MemoryUsage { init, used, committed, max }),
    {
        MemoryUsage { init, used, committed, max }
    }

    pub fn get_init(&self) -> (r: i64)
        ensures
            r == self.init,
    {
        self.init
    }

    pub fn get_used(&self) -> (r: i64)
        ensures
            r == self.used,
    {
        self.used
    }

    pub fn get_committed(&self) -> (r: i64)
        ensures
            r == self.committed,
    {
        self.committed
    }

    pub fn get_max(&self) -> (r: i64)
        ensures
            r == self.max,
    {
        self.max
    }
}

/// One named memory pool and its usage figures.
#[derive(Debug)]
pub struct MemoryPoolMXBean {
    pub name: String,
    pub usage: MemoryUsage,
}

impl View for MemoryPoolMXBean {
    type V = (Seq<char>, MemoryUsage);

    open spec fn view(&self) -> (Seq<char>, MemoryUsage) {
        (self.name@, self.usage)
    }
}

impl MemoryPoolMXBean {
    pub fn new(name: String, usage: MemoryUsage) -> (r: MemoryPoolMXBean)
        ensures
            r == (MemoryPoolMXBean { name, usage }),
    {
        MemoryPoolMXBean { name, usage }
    }

    pub fn get_name(&self) -> (r: String)
        ensures
            r == self.name,
    {
        self.name.clone()
    }

    pub fn get_usage(&self) -> (r: MemoryUsage)
        ensures
            r == self.usage,
    {
        self.usage
    }
}

/// The heap and non-heap usage figures of the whole runtime.
#[derive(Clone, Copy, Debug)]
pub struct MemoryMXBean {
    pub heap: MemoryUsage,
    pub non_heap: MemoryUsage,
}

impl MemoryMXBean {
    pub fn new(heap: MemoryUsage, non_heap: MemoryUsage) -> (r: MemoryMXBean)
        ensures
            r == (MemoryMXBean { heap, non_heap }),
    {
        MemoryMXBean { heap, non_heap }
    }

    pub fn get_heap_memory_usage(&self) -> (r: MemoryUsage)
        ensures
            r == self.heap,
    {
        self.heap
    }

    pub fn get_non_heap_memory_usage(&self) -> (r: MemoryUsage)
        ensures
            r == self.non_heap,
    {
        self.non_heap
    }
}

/// The diagnostic bean: heap-dump requests are recorded here, in order,
/// for the binding layer to perform.
#[derive(Debug)]
pub struct HotspotDiagnosticMXBean {
    pub requests: Vec<String>,
}

impl HotspotDiagnosticMXBean {
    pub fn new() -> (r: HotspotDiagnosticMXBean)
        ensures
            r.requests@.len() == 0,
    {
        HotspotDiagnosticMXBean { requests: Vec::new() }
    }

    /// Records a request to dump the heap at `path`.
    pub fn dump_heap(&mut self, path: &str)
        ensures
            final(self).requests@.len() == old(self).requests@.len() + 1,
            final(self).requests@.last()@ == path@,
            forall|i: int|
                0 <= i < old(self).requests@.len() ==> final(self).requests@[i] == old(
                    self,
                ).requests@[i],
    {
        let p = String::from_str(path);
        self.requests.push(p);
    }
}

/// The entry point to the management beans, built once per escalation by
/// the binding layer from the host's figures.
#[derive(Debug)]
pub struct ManagementFactory {
    pub memory: MemoryMXBean,
    pub pools: Vec<MemoryPoolMXBean>,
}

impl ManagementFactory {
    pub fn new(memory: MemoryMXBean, pools: Vec<MemoryPoolMXBean>) -> (r: ManagementFactory)
        ensures
            r.memory == memory,
            r.pools == pools,
    {
        ManagementFactory { memory, pools }
    }

    pub fn get_memory_mxbean(&self) -> (r: MemoryMXBean)
        ensures
            r == self.memory,
    {
        self.memory
    }

    /// A fresh diagnostic bean with no requests recorded yet.
    pub fn get_hotspot_diagnostic_mxbean(&self) -> (r: HotspotDiagnosticMXBean)
        ensures
            r.requests@.len() == 0,
    {
        HotspotDiagnosticMXBean::new()
    }

    /// The number of memory pools.
    pub fn size(&self) -> (r: usize)
        ensures
            r == self.pools@.len(),
    {
        self.pools.len()
    }

    /// The memory pools, in the host's order.
    pub fn get_memory_pool_mxbeans(&self) -> (r: Vec<MemoryPoolMXBean>)
        ensures
            r@ == self.pools@,
    {
        self.to_vec()
    }

    /// Copies the pool list.
    pub fn to_vec(&self) -> (r: Vec<MemoryPoolMXBean>)
        ensures
            r@ == self.pools@,
    {
        let mut v: Vec<MemoryPoolMXBean> = Vec::new();
        let mut i: usize = 0;
        while i < self.pools.len()
            invariant
                i <= self.pools@.len(),
                v@ =~= self.pools@.subrange(0, i as int),
            decreases self.pools@.len() - i,
        {
            let p = &self.pools[i];
            v.push(MemoryPoolMXBean { name: p.name.clone(), usage: p.usage });
            i = i + 1;
        }
        proof {
            assert(self.pools@.subrange(0, self.pools@.len() as int) =~= self.pools@);
        }
        v
    }
}

} // verus!
