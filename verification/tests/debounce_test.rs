use jvmkill::context::Context;
use jvmkill::events::Events;
use jvmkill::threshold::Threshold;

fn create(s: &str) -> Context {
    Context::new(Some(s)).expect("options must parse")
}

fn now_ms() -> i64 {
    chrono::Utc::now().timestamp_millis()
}

#[test]
fn does_not_trigger() {
    assert_eq!(create("count=100,time=100").record().0, false);
}

#[test]
fn triggers() {
    assert_eq!(create("count=0").record().0, true);
}

#[test]
fn reports_progress_counts() {
    let mut c = create("count=2,time=10");
    let base: i64 = 1_000_000;
    assert_eq!(c.record_at(base).1, "Resource Exhausted! (1/2)");
    assert_eq!(c.record_at(base + 1).1, "Resource Exhausted! (2/2)");
    let (escalate, message) = c.record_at(base + 2);
    assert_eq!(message, "Resource Exhausted! (3/2)");
    assert!(escalate);
}

#[test]
fn filters_events() {
    let mut e = Events::new(1);

    e.record(now_ms());

    assert_eq!(e.events_since(now_ms() + 10_000), 0);
    assert_eq!(e.events_since(now_ms() - 10_000), 1);
}

#[test]
fn records_beyond_limit() {
    let mut e = Events::new(2);

    for _ in 1..5 {
        e.record(now_ms());
    }

    assert_eq!(e.events_since(now_ms() - 10_000), 3)
}

#[test]
fn records_events() {
    let mut e = Events::new(1);

    e.record(now_ms());

    assert_eq!(e.events_since(now_ms() - 10_000), 1)
}

#[test]
fn threshold_triggers_if_threshold_exceeded() {
    let mut threshold = Threshold::new(2, 3);

    assert!(!threshold.on_oom().0);
    assert!(!threshold.on_oom().0);
    assert!(threshold.on_oom().0);
}

#[test]
fn threshold_does_not_trigger_if_threshold_not_exceeded() {
    let mut threshold = Threshold::new(2, 1);
    let base: i64 = 10_000;

    assert!(!threshold.on_oom_at(base).0);
    assert!(!threshold.on_oom_at(base + 10).0);

    assert!(!threshold.on_oom_at(base + 1200).0);
    assert!(!threshold.on_oom_at(base + 1210).0);
}

#[test]
fn sparse_notifications_never_escalate() {
    let mut c = create("count=2,time=1");
    let base: i64 = 1_000_000;
    for i in 0..10 {
        let (escalate, _) = c.record_at(base + i * 1_100);
        assert!(!escalate);
    }
}

#[test]
fn burst_escalates_exactly_at_threshold() {
    let mut c = create("count=3,time=10");
    let base: i64 = 5_000_000;
    for i in 0..3 {
        assert!(!c.record_at(base + i).0);
    }
    assert!(c.record_at(base + 3).0);
    assert!(c.record_at(base + 4).0);
}
