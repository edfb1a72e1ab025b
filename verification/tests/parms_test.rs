use jvmkill::err::Error;
use jvmkill::parms::AgentParameters;

fn parse(o: &str) -> AgentParameters {
    AgentParameters::parseParameters(Some(o)).expect("options must parse")
}

fn parse_err(o: &str) -> String {
    match AgentParameters::parseParameters(Some(o)) {
        Ok(_) => panic!("options must be rejected"),
        Err(Error::Parse(m)) => m,
        Err(_) => panic!("unexpected error kind"),
    }
}

#[test]
fn defaults() {
    let ap = parse("");
    assert_eq!(ap.time_threshold, 1);
    assert_eq!(ap.count_threshold, 0);
    assert!(!ap.print_heap_histogram);
    assert_eq!(ap.heap_histogram_max_entries, 100);
    assert!(ap.print_memory_usage);
}

#[test]
fn null_pointer() {
    let ap = AgentParameters::parseParameters(None).expect("no options must parse");
    assert_eq!(ap.time_threshold, 1);
    assert_eq!(ap.count_threshold, 0);
    assert!(!ap.print_heap_histogram);
    assert_eq!(ap.heap_histogram_max_entries, 100);
    assert!(ap.print_memory_usage);
}

#[test]
fn parses_time_threshold() {
    let ap = parse("time=99");
    assert_eq!(ap.time_threshold, 99);
}

#[test]
fn parses_time_threshold_default() {
    let ap = parse("time=");
    assert_eq!(ap.time_threshold, 1);
}

#[test]
fn parses_time_threshold_invalid() {
    assert_eq!(parse_err("time=forever"), "not a number");
}

#[test]
fn parses_count_threshold() {
    let ap = parse("count=88");
    assert_eq!(ap.count_threshold, 88);
}

#[test]
fn parses_count_threshold_default() {
    let ap = parse("count=");
    assert_eq!(ap.count_threshold, 0);
}

#[test]
fn parses_count_threshold_invalid() {
    assert_eq!(parse_err("count=zero"), "not a number");
}

#[test]
fn parses_print_heap_histogram_on() {
    let ap = parse("printHeapHistogram=1");
    assert!(ap.print_heap_histogram);
}

#[test]
fn parses_print_heap_histogram_off() {
    let ap = parse("printHeapHistogram=0");
    assert!(!ap.print_heap_histogram);
}

#[test]
fn parses_print_heap_histogram_default() {
    let ap = parse("printHeapHistogram=");
    assert!(!ap.print_heap_histogram);
}

#[test]
fn parses_print_heap_histogram_invalid() {
    assert_eq!(parse_err("printHeapHistogram=true"), "not a number");
}

#[test]
fn parms_parses_heap_histogram_max_entries() {
    let ap = parse("heapHistogramMaxEntries=200");
    assert_eq!(ap.heap_histogram_max_entries, 200);
}

#[test]
fn parses_heap_histogram_max_entries_unlimited() {
    let ap = parse("heapHistogramMaxEntries=0");
    assert_eq!(ap.heap_histogram_max_entries, 0);
}

#[test]
fn parses_heap_histogram_max_entries_default() {
    let ap = parse("heapHistogramMaxEntries=");
    assert_eq!(ap.heap_histogram_max_entries, 100);
}

#[test]
fn parses_heap_histogram_max_entries_invalid() {
    assert_eq!(parse_err("heapHistogramMaxEntries=unlimited"), "not a number");
}

#[test]
fn parses_print_memory_usage_on() {
    let ap = parse("printMemoryUsage=1");
    assert!(ap.print_memory_usage);
}

#[test]
fn parses_print_memory_usage_off() {
    let ap = parse("printMemoryUsage=0");
    assert!(!ap.print_memory_usage);
}

#[test]
fn parses_print_memory_usage_default() {
    let ap = parse("printMemoryUsage=");
    assert!(ap.print_memory_usage);
}

#[test]
fn parses_print_memory_usage_invalid() {
    assert_eq!(parse_err("printMemoryUsage=false"), "not a number");
}

#[test]
fn parses_heap_dump_path_default() {
    let ap = parse("");
    assert_eq!(ap.heap_dump_path, None);
}

#[test]
fn parses_heap_dump_path_empty() {
    let ap = parse("heapDumpPath=");
    assert_eq!(ap.heap_dump_path, Some(String::from("")));
}

#[test]
fn parses_heap_dump_path_provided() {
    let ap = parse("heapDumpPath=/a/b");
    assert_eq!(ap.heap_dump_path, Some(String::from("/a/b")));
}

#[test]
fn unknown_option() {
    assert_eq!(parse_err("noSuch=0"), "unknown option: noSuch");
}

#[test]
fn parms_invalid_option() {
    assert_eq!(parse_err("noequals"), "invalid option: noequals");
}
