use jvmkill::err::Error;
use jvmkill::parameters::Parameters;

fn create(s: &str) -> Parameters {
    Parameters::new(Some(s)).expect("options must parse")
}

fn create_err(s: &str) -> String {
    match Parameters::new(Some(s)) {
        Ok(_) => panic!("options must be rejected"),
        Err(Error::Parse(m)) => m,
        Err(_) => panic!("unexpected error kind"),
    }
}

#[test]
fn default_values() {
    let p = Parameters::default();

    assert_eq!(
        p,
        Parameters {
            count_threshold: 0,
            heap_dump_path: None,
            heap_histogram_max_entries: 100,
            print_heap_histogram: false,
            print_memory_usage: true,
            time_threshold: 1,
        }
    );
}

#[test]
fn empty_key() {
    assert_eq!(create_err("=test-value"), "invalid key: =test-value");
}

#[test]
fn empty_option() {
    assert_eq!(create_err("test"), "invalid option: test");
}

#[test]
fn empty_value() {
    assert_eq!(create_err("test-key="), "invalid value: test-key=");
}

#[test]
fn parameters_invalid_option() {
    assert_eq!(create_err("test-key=test-value"), "unknown option: test-key");
}

#[test]
fn parses_count() {
    assert_eq!(create("count=42").count_threshold, 42);
}

#[test]
fn parses_heap_dump_path() {
    assert_eq!(create("heapDumpPath=/test").heap_dump_path, Some(String::from("/test")));
}

#[test]
fn parameters_parses_heap_histogram_max_entries() {
    assert_eq!(create("heapHistogramMaxEntries=42").heap_histogram_max_entries, 42);
}

#[test]
fn parses_print_heap_histogram() {
    assert_eq!(create("printHeapHistogram=0").print_heap_histogram, false);
}

#[test]
fn parses_print_memory_usage() {
    assert_eq!(create("printMemoryUsage=0").print_memory_usage, false);
}

#[test]
fn parses_time() {
    assert_eq!(create("time=42").time_threshold, 42);
}

#[test]
fn no_options_yields_defaults() {
    let p = Parameters::new(None).expect("no options must parse");
    assert_eq!(p, Parameters::default());
}

#[test]
fn non_numeric_count_is_rejected() {
    assert_eq!(create_err("count=zero"), "option value must be a number");
}
