use jvmkill::jmx::HotspotDiagnosticMXBean;
use jvmkill::jmx::ManagementFactory;
use jvmkill::jmx::MemoryMXBean;
use jvmkill::jmx::MemoryPoolMXBean;
use jvmkill::jmx::MemoryUsage;

fn usage() -> MemoryUsage {
    MemoryUsage::new(12, 14, 11, 13)
}

#[test]
fn get_committed() {
    assert_eq!(usage().get_committed(), 11);
}

#[test]
fn get_init() {
    assert_eq!(usage().get_init(), 12);
}

#[test]
fn get_max() {
    assert_eq!(usage().get_max(), 13);
}

#[test]
fn get_used() {
    assert_eq!(usage().get_used(), 14);
}

#[test]
fn get_name() {
    let pool = MemoryPoolMXBean::new(String::from("test-name"), usage());
    assert_eq!(pool.get_name(), "test-name");
}

#[test]
fn get_usage() {
    let pool = MemoryPoolMXBean::new(String::from("test-name"), usage());
    assert_eq!(pool.get_usage(), usage());
}

#[test]
fn get_heap_memory_usage() {
    let heap = MemoryUsage::new(1, 2, 3, 4);
    let non_heap = MemoryUsage::new(5, 6, 7, 8);
    assert_eq!(MemoryMXBean::new(heap, non_heap).get_heap_memory_usage(), heap);
}

#[test]
fn get_non_heap_memory_usage() {
    let heap = MemoryUsage::new(1, 2, 3, 4);
    let non_heap = MemoryUsage::new(5, 6, 7, 8);
    assert_eq!(MemoryMXBean::new(heap, non_heap).get_non_heap_memory_usage(), non_heap);
}

#[test]
fn get_memory_mxbean() {
    let m = MemoryMXBean::new(usage(), usage());
    let factory = ManagementFactory::new(m, Vec::new());
    assert_eq!(factory.get_memory_mxbean().get_heap_memory_usage(), usage());
}

#[test]
fn get_memory_pool_mxbeans() {
    let m = MemoryMXBean::new(usage(), usage());
    let pools = vec![
        MemoryPoolMXBean::new(String::from("a"), usage()),
        MemoryPoolMXBean::new(String::from("b"), usage()),
        MemoryPoolMXBean::new(String::from("c"), usage()),
    ];
    let factory = ManagementFactory::new(m, pools);
    let mp = factory.get_memory_pool_mxbeans();
    assert_eq!(mp.len(), 3);
    assert_eq!(mp[0].get_name(), "a");
    assert_eq!(mp[2].get_name(), "c");
}

#[test]
fn get_hotspot_diagnostic_mxbean() {
    let m = MemoryMXBean::new(usage(), usage());
    let factory = ManagementFactory::new(m, Vec::new());
    assert_eq!(factory.get_hotspot_diagnostic_mxbean().requests.len(), 0);
}

#[test]
fn dump_heap() {
    let mut bean = HotspotDiagnosticMXBean::new();
    bean.dump_heap("/test/dump.hprof");
    assert_eq!(bean.requests, vec![String::from("/test/dump.hprof")]);
}
