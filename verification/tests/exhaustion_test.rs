//! End-to-end runs of the response engine against a simulated host:
//! option strings, exhaustion flags and the output lines they must
//! produce, driven through the heuristic and both action sets.

use jvmkill::action::actions::Actions;
use jvmkill::action::actions::Session;
use jvmkill::context::Context;
use jvmkill::controller::AgentController;
use jvmkill::controller::ControllerSession;
use jvmkill::heap::contents::Contents;
use jvmkill::heap::stats::Stats;
use jvmkill::heap::types::Types;
use jvmkill::jmx::ManagementFactory;
use jvmkill::jmx::MemoryMXBean;
use jvmkill::jmx::MemoryPoolMXBean;
use jvmkill::jmx::MemoryUsage;
use jvmkill::output::OutputLine;

const HEAP: i32 = 2;
const THREADS: i32 = 4;

fn factory() -> ManagementFactory {
    let heap = MemoryUsage::new(268435456, 50331648, 52428800, 52428800);
    let non_heap = MemoryUsage::new(2555904, 39321600, 41943040, -1);
    let pools = vec![
        MemoryPoolMXBean::new(String::from("Metaspace"), MemoryUsage::new(0, 38000000, 39000000, -1)),
        MemoryPoolMXBean::new(String::from("Heap memory"), MemoryUsage::new(268435456, 50331648, 52428800, 52428800)),
    ];
    ManagementFactory::new(MemoryMXBean::new(heap, non_heap), pools)
}

fn session() -> Session {
    let mut types = Types::new();
    types.tag_class(String::from("Ljava/lang/Class;"));
    types.tag_class(String::from("[B"));
    let mut contents = Contents::new();
    for _ in 0..20 {
        contents.visit(0, 500, 0);
    }
    for _ in 0..5 {
        contents.visit(1, 8192, 0);
    }
    contents.analyze_heap();
    Session { factory: factory(), types, contents }
}

fn run(options: &str, flags: i32) -> (Vec<OutputLine>, Vec<String>) {
    let opts = if options.is_empty() { None } else { Some(options) };
    let mut ctx = Context::new(opts).expect("options must parse");
    let mut stderr: Vec<String> = Vec::new();
    let (escalate, message) = ctx.record();
    stderr.push(message);
    let mut lines: Vec<OutputLine> = Vec::new();
    if escalate {
        let actions = Actions::new(&ctx.parameters);
        lines = actions.execute(flags, &session());
    }
    (lines, stderr)
}

fn stdout_text(lines: &[OutputLine]) -> String {
    let mut s = String::new();
    for l in lines {
        if let OutputLine::Stdout(t) = l {
            s.push_str(t);
        }
    }
    s
}

fn stderr_text(lines: &[OutputLine]) -> String {
    let mut s = String::new();
    for l in lines {
        if let OutputLine::Stderr(t) = l {
            s.push_str(t);
        }
    }
    s
}

#[test]
fn time_0_count_0() {
    let (lines, _) = run("printHeapHistogram=1,heapHistogramMaxEntries=20", HEAP);
    let out = stdout_text(&lines);
    assert!(out.contains("java.lang.Class"));
    assert!(out.contains("Heap memory:"));
    assert!(stderr_text(&lines).contains("jvmkill is killing current process"));
    assert!(matches!(lines.last(), Some(OutputLine::Signal { signal: 9, delay: false })));
}

#[test]
fn memory_time_0_count_0() {
    let (lines, _) = run("printHeapHistogram=1,heapHistogramMaxEntries=20", HEAP);
    let out = stdout_text(&lines);
    assert!(out.contains("java.lang.Class"));
    assert!(out.contains("Heap memory:"));
    assert!(matches!(lines.last(), Some(OutputLine::Signal { .. })));
}

#[test]
fn basic() {
    let (lines, _) = run("", THREADS);
    assert!(stderr_text(&lines)
        .contains("cannot dump memory pools since the JVM is unable to create a thread"));
    assert!(stderr_text(&lines).contains("jvmkill is killing current process"));
}

#[test]
fn print_memory_usage_0() {
    let (lines, _) = run("printMemoryUsage=0", THREADS);
    assert_eq!(stdout_text(&lines).contains("Memory Pools"), false);
    assert!(stderr_text(&lines).contains("jvmkill is killing current process"));
}

#[test]
fn thread_time_10_count_2() {
    // The newer heuristic: the first notification reports (1/2) and stays
    // quiet.
    let mut ctx =
        Context::new(Some("time=10,count=2,printHeapHistogram=0,printMemoryUsage=0"))
            .expect("options must parse");
    let (escalate, message) = ctx.record();
    assert!(!escalate);
    assert_eq!(message, "Resource Exhausted! (1/2)");

    // The older heuristic reports the same count, and its pipeline ends in the
    // kill announcement once the threshold is exceeded.
    let mut ac = AgentController::new(
        Some("time=10,count=2,printHeapHistogram=0,printMemoryUsage=0"),
    )
    .expect("options must parse");
    let cs = ControllerSession { factory: factory(), heap_stats: Stats::new(100) };
    let first = ac.on_oom(THREADS, &cs);
    match &first[0] {
        OutputLine::Stderr(m) => assert_eq!(m, "ResourceExhausted! (1/2)\n"),
        _ => panic!("the progress message must come first"),
    }
    ac.on_oom(THREADS, &cs);
    let third = ac.on_oom(THREADS, &cs);
    assert!(stderr_text(&third).contains("jvmkill killing current process"));
}

#[test]
fn parallel_time_10_count_2() {
    let mut ctx =
        Context::new(Some("time=10,count=2,printHeapHistogram=0,printMemoryUsage=0"))
            .expect("options must parse");
    let mut killed = false;
    for _ in 0..6 {
        let (escalate, _) = ctx.record();
        if escalate {
            let actions = Actions::new(&ctx.parameters);
            let lines = actions.execute(THREADS, &session());
            assert!(stderr_text(&lines).contains("jvmkill is killing current process"));
            killed = true;
            break;
        }
    }
    assert!(killed);
}

#[test]
fn thread_basic() {
    let mut ac = AgentController::new(None).expect("no options must parse");
    let cs = ControllerSession { factory: factory(), heap_stats: Stats::new(100) };
    ac.on_oom(THREADS, &cs);
    assert!(ac
        .output()
        .contains("Resource exhaustion event: the JVM was unable to create a thread."));
    assert!(ac.output().contains("ERROR: PoolStats action failed"));
}

#[test]
fn thread_print_memory_usage_0() {
    let mut ac =
        AgentController::new(Some("printMemoryUsage=0")).expect("options must parse");
    let cs = ControllerSession { factory: factory(), heap_stats: Stats::new(100) };
    let lines = ac.on_oom(THREADS, &cs);
    assert!(stderr_text(&lines).contains("jvmkill killing current process"));
}

#[test]
fn thread_parallel_time_10_count_2() {
    let mut ac = AgentController::new(
        Some("time=10,count=2,printHeapHistogram=0,printMemoryUsage=0"),
    )
    .expect("options must parse");
    let cs = ControllerSession { factory: factory(), heap_stats: Stats::new(100) };
    let mut killed = false;
    for _ in 0..6 {
        let lines = ac.on_oom(THREADS, &cs);
        if stderr_text(&lines).contains("jvmkill killing current process") {
            killed = true;
            break;
        }
    }
    assert!(killed);
}

#[test]
fn one_notification_produces_histogram_then_kill() {
    let (lines, stderr) = run("printHeapHistogram=1", HEAP);
    assert!(stderr[0].starts_with("Resource Exhausted! (1/0)"));
    let out = stdout_text(&lines);
    let histogram_at = out.find(">>> Heap Histogram").expect("the histogram must print");
    assert!(out[histogram_at..].contains("java.lang.Class"));
    assert!(matches!(lines.last(), Some(OutputLine::Signal { signal: 9, delay: false })));
}
