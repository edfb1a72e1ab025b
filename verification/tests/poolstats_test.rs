use jvmkill::poolstats::PoolStats;

#[test]
fn no_hint_by_default() {
    let mut output = String::new();

    let pool_stats = PoolStats::new();
    pool_stats.print_stats(String::from("some pool"), (0i64, 1i64, 95i64, 100i64), &mut output);
    assert_eq!(output, "   some pool: init 0, used 1, committed 95, max 100\n");
}

#[test]
fn no_heap_hint_by_default() {
    let mut output = String::new();

    let pool_stats = PoolStats::new();
    pool_stats.print_stats(String::from("Heap memory"), (0i64, 1i64, 94i64, 100i64), &mut output);
    assert_eq!(output, "   Heap memory: init 0, used 1, committed 94, max 100\n");
}

#[test]
fn heap_hint_when_nearly_full() {
    let mut output = String::new();

    let pool_stats = PoolStats::new();
    pool_stats.print_stats(String::from("Heap memory"), (0i64, 1i64, 95i64, 100i64), &mut output);
    assert_eq!(output, "   Heap memory: init 0, used 1, committed 95, max 100\n      Hint: Heap memory is over 95% full. To increase it, increase the container size.\n");
}

#[test]
fn metaspace_hint_when_nearly_full() {
    let mut output = String::new();

    let pool_stats = PoolStats::new();
    pool_stats.print_stats(String::from("Metaspace"), (0i64, 1i64, 95i64, 100i64), &mut output);
    assert_eq!(output, "   Metaspace: init 0, used 1, committed 95, max 100\n      Hint: Metaspace is over 95% full. To increase it, set -XX:MaxMetaspaceSize to a suitable value.\n");
}

#[test]
fn compressed_class_space_hint_when_nearly_full() {
    let mut output = String::new();

    let pool_stats = PoolStats::new();
    pool_stats.print_stats(
        String::from("Compressed Class Space"),
        (0i64, 1i64, 95i64, 100i64),
        &mut output,
    );
    assert_eq!(output, "   Compressed Class Space: init 0, used 1, committed 95, max 100\n      Hint: Compressed Class Space is over 95% full. To increase it, set -XX:CompressedClassSpaceSize to a suitable value.\n");
}

#[test]
fn undefined_max_is_not_nearly_full() {
    let mut output = String::new();

    let pool_stats = PoolStats::new();
    pool_stats.print_stats(String::from("Heap memory"), (0i64, 1i64, 95i64, -1i64), &mut output);
    assert_eq!(output, "   Heap memory: init 0, used 1, committed 95, max -1\n");
}
