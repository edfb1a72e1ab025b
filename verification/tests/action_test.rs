use jvmkill::action::actions::Action;
use jvmkill::action::actions::Actions;
use jvmkill::action::actions::Session;
use jvmkill::action::heap_dump::HeapDump;
use jvmkill::action::heap_histogram::HeapHistogram;
use jvmkill::action::kill::Kill;
use jvmkill::action::memory_pools::MemoryPools;
use jvmkill::action::thread_dump::ThreadDump;
use jvmkill::heap::contents::Contents;
use jvmkill::heap::types::Types;
use jvmkill::jmx::ManagementFactory;
use jvmkill::jmx::MemoryMXBean;
use jvmkill::jmx::MemoryPoolMXBean;
use jvmkill::jmx::MemoryUsage;
use jvmkill::output::OutputLine;
use jvmkill::parameters::Parameters;

const HEAP: i32 = 2;
const THREADS: i32 = 4;

fn factory() -> ManagementFactory {
    let heap = MemoryUsage::new(1, 2, 3, 100);
    let non_heap = MemoryUsage::new(4, 5, 6, 100);
    let pools = vec![MemoryPoolMXBean::new(String::from("Metaspace"), MemoryUsage::new(0, 1, 96, 100))];
    ManagementFactory::new(MemoryMXBean::new(heap, non_heap), pools)
}

fn session() -> Session {
    let mut types = Types::new();
    types.tag_class(String::from("Ljava/lang/Class;"));
    types.tag_class(String::from("[I"));
    let mut contents = Contents::new();
    contents.visit(0, 30, 0);
    contents.visit(0, 30, 0);
    contents.visit(1, 10, 0);
    contents.analyze_heap();
    Session { factory: factory(), types, contents }
}

fn stdout_text(lines: &[OutputLine]) -> String {
    let mut s = String::new();
    for l in lines {
        if let OutputLine::Stdout(t) = l {
            s.push_str(t);
        }
    }
    s
}

fn stderr_text(lines: &[OutputLine]) -> String {
    let mut s = String::new();
    for l in lines {
        if let OutputLine::Stderr(t) = l {
            s.push_str(t);
        }
    }
    s
}

#[test]
fn mod_execute() {
    let p = Parameters::default();
    let a = Actions::new(&p);
    assert_eq!(a.actions.len(), 3);
}

#[test]
fn execute_print_heap_histogram_true() {
    let mut p = Parameters::default();
    p.print_heap_histogram = true;
    let a = Actions::new(&p);
    assert_eq!(a.actions.len(), 4);
}

#[test]
fn execute_print_memory_usage_false() {
    let mut p = Parameters::default();
    p.print_memory_usage = false;
    let a = Actions::new(&p);
    assert_eq!(a.actions.len(), 2);
}

#[test]
fn execute_heap_dump_path() {
    let mut p = Parameters::default();
    p.heap_dump_path = Some(String::from("test-dir"));
    let a = Actions::new(&p);
    assert_eq!(a.actions.len(), 4);
}

#[test]
fn kill_execute() {
    let t = Kill::new();

    assert_eq!(t.signal.signal(), libc::SIGKILL);
    assert_eq!(t.signal.delay(), false);

    let lines = t.execute();
    assert!(stderr_text(&lines).contains("jvmkill is killing current process"));
    assert!(matches!(lines[1], OutputLine::Signal { signal: 9, delay: false }));
}

#[test]
fn thread_dump_execute() {
    let t = ThreadDump::new();

    assert_eq!(t.signal.signal(), libc::SIGQUIT);
    assert_eq!(t.signal.delay(), true);

    let lines = t.execute();
    assert!(stdout_text(&lines).contains(">>> Thread Dump"));
    assert!(matches!(lines[1], OutputLine::Signal { signal: 3, delay: true }));
}

#[test]
fn memory_pools_execute() {
    let lines = MemoryPools::new().execute(HEAP, &factory()).expect("must print the report");
    let text = stdout_text(&lines);
    assert!(text.contains(">>> Memory Pools"));
    assert!(text.contains("Heap memory: init 1, used 2, committed 3, max 100"));
    assert!(text.contains("Non-heap memory: init 4, used 5, committed 6, max 100"));
    assert!(text.contains("Metaspace: init 0, used 1, committed 96, max 100"));
    assert!(text.contains("Hint: Metaspace is over 95% full."));
}

#[test]
fn memory_pools_execute_threads_exhausted() {
    let e = MemoryPools::new().execute(THREADS, &factory()).expect_err("must refuse");
    assert_eq!(
        e.message(),
        "cannot dump memory pools since the JVM is unable to create a thread"
    );
}

#[test]
fn heap_dump_execute() {
    let lines = HeapDump::new(String::from("dump-%Y.hprof")).execute(HEAP).expect("must resolve");
    assert_eq!(lines.len(), 3);
    match &lines[1] {
        OutputLine::DumpRequest(p) => {
            assert!(!p.contains('%'));
            assert!(p.starts_with("dump-"));
            assert!(p.ends_with(".hprof"));
        },
        _ => panic!("the second line must request the dump"),
    }
    assert!(stdout_text(&lines).contains("Heap dump written to"));
}

#[test]
fn heap_dump_execute_threads_exhausted() {
    let e = HeapDump::new(String::from("dump.hprof")).execute(THREADS).expect_err("must refuse");
    assert_eq!(e.message(), "cannot create heap dump since the JVM is unable to create a thread");
}

#[test]
fn heap_histogram_execute() {
    let s = session();
    let lines = HeapHistogram::new(2).execute(&s.types, &s.contents).expect("must print");
    let text = stdout_text(&lines);
    assert!(text.contains(">>> Heap Histogram"));
    assert!(text.contains("| Instance Count | Total Bytes | Class Name      |"));
    assert!(text.contains("| 2              | 60          | java.lang.Class |"));
    assert!(text.contains("| 1              | 10          | int[]           |"));
}

#[test]
fn heap_histogram_truncates_to_top_entries() {
    let s = session();
    let lines = HeapHistogram::new(1).execute(&s.types, &s.contents).expect("must print");
    let text = stdout_text(&lines);
    assert!(text.contains("java.lang.Class"));
    assert!(!text.contains("int[]"));
}

#[test]
fn pipeline_runs_every_action_and_kills_last() {
    let mut p = Parameters::default();
    p.print_heap_histogram = true;
    let a = Actions::new(&p);
    let s = session();
    let lines = a.execute(HEAP, &s);
    let out = stdout_text(&lines);
    assert!(out.contains(">>> Heap Histogram"));
    assert!(out.contains(">>> Memory Pools"));
    assert!(out.contains(">>> Thread Dump"));
    assert!(stderr_text(&lines).contains("jvmkill is killing current process"));
    assert!(matches!(lines.last(), Some(OutputLine::Signal { signal: 9, delay: false })));
}

#[test]
fn pipeline_refuses_memory_actions_but_still_kills() {
    let mut p = Parameters::default();
    p.heap_dump_path = Some(String::from("dump.hprof"));
    let a = Actions::new(&p);
    let s = session();
    let lines = a.execute(THREADS, &s);
    let err = stderr_text(&lines);
    assert!(err.contains("cannot dump memory pools since the JVM is unable to create a thread"));
    assert!(err.contains("cannot create heap dump since the JVM is unable to create a thread"));
    assert!(!lines.iter().any(|l| matches!(l, OutputLine::DumpRequest(_))));
    assert!(matches!(lines.last(), Some(OutputLine::Signal { signal: 9, delay: false })));
}
