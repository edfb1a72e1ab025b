use jvmkill::controller::AgentContext;
use jvmkill::controller::AgentController;
use jvmkill::controller::ControllerAction;
use jvmkill::controller::ControllerSession;
use jvmkill::controller::resource_exhaustion_symptom;
use jvmkill::heap::stats::Stats;
use jvmkill::jmx::ManagementFactory;
use jvmkill::jmx::MemoryMXBean;
use jvmkill::jmx::MemoryUsage;
use jvmkill::output::OutputLine;
use jvmkill::threshold::Threshold;

const HEAP: i32 = 2;
const THREADS: i32 = 4;

fn dummy_session() -> ControllerSession {
    let usage = MemoryUsage::new(0, 0, 0, 0);
    ControllerSession {
        factory: ManagementFactory::new(MemoryMXBean::new(usage, usage), Vec::new()),
        heap_stats: Stats::new(100),
    }
}

fn test_ac() -> AgentController {
    // A threshold of one within a one-hour window: the first notification
    // stays quiet, the second escalates.
    let heuristic = Threshold::new(1, 3600);
    AgentController::test_new(
        heuristic,
        vec![ControllerAction::Kill { signal: 9 }],
        String::new(),
    )
}

fn has_signal(lines: &[OutputLine]) -> bool {
    lines.iter().any(|l| matches!(l, OutputLine::Signal { .. }))
}

#[test]
fn prints_default_resource_exhaustion_message() {
    let mut ac = test_ac();
    ac.on_oom(0, &dummy_session());
    assert_eq!(ac.output(), "\nResource exhaustion event.\n")
}

#[test]
fn prints_heap_resource_exhaustion_message() {
    let mut ac = test_ac();
    ac.on_oom(HEAP, &dummy_session());
    assert_eq!(
        ac.output(),
        "\nResource exhaustion event: the JVM was unable to allocate memory from the heap.\n"
    )
}

#[test]
fn prints_thread_resource_exhaustion_message() {
    let mut ac = test_ac();
    ac.on_oom(THREADS, &dummy_session());
    assert_eq!(
        ac.output(),
        "\nResource exhaustion event: the JVM was unable to create a thread.\n"
    )
}

#[test]
fn prints_heap_and_thread_resource_exhaustion_message() {
    let mut ac = test_ac();
    ac.on_oom(HEAP + THREADS, &dummy_session());
    assert_eq!(ac.output(), "\nResource exhaustion event: the JVM was unable to allocate memory from the heap and create a thread.\n")
}

#[test]
fn controller_does_not_call_action_when_heuristic_returns_false() {
    let mut ac = test_ac();
    let lines = ac.on_oom(0, &dummy_session());
    assert!(!has_signal(&lines));
}

#[test]
fn controller_calls_action_when_heuristic_returns_true() {
    let mut ac = test_ac();
    let first = ac.on_oom(0, &dummy_session());
    assert!(!has_signal(&first));
    let second = ac.on_oom(0, &dummy_session());
    assert!(has_signal(&second));
}

#[test]
fn oom_notice_when_escalation_declined() {
    let mut ac = test_ac();
    ac.on_oom(1, &dummy_session());
    assert_eq!(
        ac.output(),
        "\nResource exhaustion event.\n\nThe JVM is about to throw a java.lang.OutOfMemoryError.\n"
    )
}

#[test]
fn empty_context_requests_nothing() {
    let mut ctx = AgentContext::new();
    let lines = ctx.on_oom(HEAP, &dummy_session());
    assert!(lines.is_empty());
}

#[test]
fn context_delegates_to_held_controller() {
    let mut ctx = AgentContext::new();
    ctx.set(test_ac());
    let first = ctx.on_oom(0, &dummy_session());
    match &first[0] {
        OutputLine::Stderr(m) => assert_eq!(m, "ResourceExhausted! (1/1)\n"),
        _ => panic!("the progress message must come first"),
    }
    assert!(!has_signal(&first));
    let second = ctx.on_oom(0, &dummy_session());
    assert!(has_signal(&second));
}

#[test]
fn resource_exhaustion_symptom_wording() {
    assert_eq!(resource_exhaustion_symptom(0), "");
    assert_eq!(
        resource_exhaustion_symptom(HEAP),
        ": the JVM was unable to allocate memory from the heap"
    );
    assert_eq!(resource_exhaustion_symptom(THREADS), ": the JVM was unable to create a thread");
    assert_eq!(
        resource_exhaustion_symptom(HEAP | THREADS),
        ": the JVM was unable to allocate memory from the heap and create a thread"
    );
}

#[test]
fn logs_pool_stats_failure_on_thread_exhaustion() {
    let heuristic = Threshold::new(0, 3600);
    let mut ac = AgentController::test_new(
        heuristic,
        vec![
            ControllerAction::PoolStats(jvmkill::poolstats::PoolStats::new()),
            ControllerAction::Kill { signal: 9 },
        ],
        String::new(),
    );
    let lines = ac.on_oom(THREADS, &dummy_session());
    assert!(ac.output().contains("ERROR: PoolStats action failed"));
    assert!(has_signal(&lines));
}
