//! The configuration record consumed by the response engine.
//!
//! The startup option string is a comma-separated list of `key=value`
//! pairs.  `spec_parse_parameters` states, pair by pair, which strings are
//! accepted and what record they produce; `Parameters::new` is proved to
//! return exactly that record, or exactly the stated parse error.

use vstd::prelude::*;

use crate::err::Error;
use crate::parse::spec_all_digits;
use crate::parse::spec_digits_val;
use crate::parse::spec_split;
use crate::parse::spec_split_once;
use crate::parse::parse_usize;
use crate::parse::split_on;
use crate::parse::split_once_on;

verus! {

#[derive(Debug)]
pub struct Parameters {
    pub count_threshold: usize,
    pub heap_dump_path: Option<String>,
    pub heap_histogram_max_entries: usize,
    pub print_heap_histogram: bool,
    pub print_memory_usage: bool,
    pub time_threshold: usize,
}

/// The mathematical shape of a configuration record.
pub struct ParametersView {
    pub count_threshold: int,
    pub heap_dump_path: Option<Seq<char>>,
    pub heap_histogram_max_entries: int,
    pub print_heap_histogram: bool,
    pub print_memory_usage: bool,
    pub time_threshold: int,
}

impl View for Parameters {
    type V = ParametersView;

    open spec fn view(&self) -> ParametersView {
        ParametersView {
            count_threshold: self.count_threshold as int,
            heap_dump_path: match self.heap_dump_path {
                Some(p) => Some(p@),
                None => None,
            },
            heap_histogram_max_entries: self.heap_histogram_max_entries as int,
            print_heap_histogram: self.print_heap_histogram,
            print_memory_usage: self.print_memory_usage,
            time_threshold: self.time_threshold as int,
        }
    }
}

/// The record produced when no options are given.
pub open spec fn spec_default_parameters() -> ParametersView {
    ParametersView {
        count_threshold: 0,
        heap_dump_path: None,
        heap_histogram_max_entries: 100,
        print_heap_histogram: false,
        print_memory_usage: true,
        time_threshold: 1,
    }
}

/// Whether a digit run names a value that fits the machine word.
pub open spec fn spec_fits_usize(s: Seq<char>) -> bool {
    spec_all_digits(s) && spec_digits_val(s) <= usize::MAX
}

/// One `key=value` pair applied to the record built so far.  An empty pair
/// is skipped; a pair without `=`, an empty key, an empty value, an unknown
/// key, or a non-numeric value for a numeric key is a parse error.
pub open spec fn spec_apply_option(p: ParametersView, o: Seq<char>) -> Result<
    ParametersView,
    Seq<char>,
> {
    if o.len() == 0 {
        Ok(p)
    } else {
        let (key, val) = spec_split_once(o, '=');
        match val {
            None => Err("invalid option: "@ + o),
            Some(value) => {
                if key.len() == 0 {
                    Err("invalid key: "@ + o)
                } else if value.len() == 0 {
                    Err("invalid value: "@ + o)
                } else if key == "count"@ {
                    if spec_fits_usize(value) {
                        Ok(ParametersView { count_threshold: spec_digits_val(value), ..p })
                    } else {
                        Err("option value must be a number"@)
                    }
                } else if key == "heapDumpPath"@ {
                    Ok(ParametersView { heap_dump_path: Some(value), ..p })
                } else if key == "heapHistogramMaxEntries"@ {
                    if spec_fits_usize(value) {
                        Ok(
                            ParametersView {
                                heap_histogram_max_entries: spec_digits_val(value),
                                ..p
                            },
                        )
                    } else {
                        Err("option value must be a number"@)
                    }
                } else if key == "printHeapHistogram"@ {
                    if spec_fits_usize(value) {
                        Ok(
                            ParametersView {
                                print_heap_histogram: spec_digits_val(value) != 0,
                                ..p
                            },
                        )
                    } else {
                        Err("option value must be a number"@)
                    }
                } else if key == "printMemoryUsage"@ {
                    if spec_fits_usize(value) {
                        Ok(ParametersView { print_memory_usage: spec_digits_val(value) != 0, ..p })
                    } else {
                        Err("option value must be a number"@)
                    }
                } else if key == "time"@ {
                    if spec_fits_usize(value) {
                        Ok(ParametersView { time_threshold: spec_digits_val(value), ..p })
                    } else {
                        Err("option value must be a number"@)
                    }
                } else {
                    Err("unknown option: "@ + key)
                }
            },
        }
    }
}

/// The option pairs applied in order, stopping at the first error.
pub open spec fn spec_parse_parameters_from(p: ParametersView, opts: Seq<Seq<char>>) -> Result<
    ParametersView,
    Seq<char>,
>
    decreases opts.len(),
{
    if opts.len() == 0 {
        Ok(p)
    } else {
        match spec_apply_option(p, opts[0]) {
            Ok(q) => spec_parse_parameters_from(q, opts.subrange(1, opts.len() as int)),
            Err(e) => Err(e),
        }
    }
}

/// The record named by a whole option string.
pub open spec fn spec_parse_parameters(s: Seq<char>) -> Result<ParametersView, Seq<char>> {
    spec_parse_parameters_from(spec_default_parameters(), spec_split(s, ','))
}

impl Default for Parameters {
    /// The defaults: escalate on the first notification within a one-second
    /// window, print memory usage, no histogram, no heap dump.
    fn default() -> (r: Self)
        ensures
            r@ == spec_default_parameters(),
    {
        Parameters {
            count_threshold: 0,
            heap_dump_path: None,
            heap_histogram_max_entries: 100,
            print_heap_histogram: false,
            print_memory_usage: true,
            time_threshold: 1,
        }
    }
}

impl PartialEq for Parameters {
    fn eq(&self, other: &Parameters) -> (r: bool) {
        self.count_threshold == other.count_threshold && (match (
            &self.heap_dump_path,
            &other.heap_dump_path,
        ) {
            (Some(a), Some(b)) => a.eq(b),
            (None, None) => true,
            _ => false,
        }) && self.heap_histogram_max_entries == other.heap_histogram_max_entries
            && self.print_heap_histogram == other.print_heap_histogram
            && self.print_memory_usage == other.print_memory_usage && self.time_threshold
            == other.time_threshold
    }
}

impl vstd::std_specs::cmp::PartialEqSpecImpl for Parameters {
    open spec fn obeys_eq_spec() -> bool {
        true
    }

    open spec fn eq_spec(&self, other: &Parameters) -> bool {
        self.count_threshold == other.count_threshold && (match (
            self.heap_dump_path,
            other.heap_dump_path,
        ) {
            (Some(a), Some(b)) => a@ == b@,
            (None, None) => true,
            _ => false,
        }) && self.heap_histogram_max_entries == other.heap_histogram_max_entries
            && self.print_heap_histogram == other.print_heap_histogram
            && self.print_memory_usage == other.print_memory_usage && self.time_threshold
            == other.time_threshold
    }
}

impl Parameters {
    /// Applies one option pair to the record.
    fn apply_option(&mut self, o: &String) -> (r: Result<(), Error>)
        ensures
            match spec_apply_option(old(self)@, o@) {
                Ok(v) => r is Ok && final(self)@ == v,
                Err(m) => (match r {
                    Err(Error::Parse(msg)) => msg@ == m,
                    _ => false,
                }),
            },
    {
        if o.as_str().unicode_len() == 0 {
            return Ok(());
        }
        let (key, val) = split_once_on(o.as_str(), '=');
        match val {
            None => {
                let m = String::from_str("invalid option: ");
                Err(Error::Parse(m.concat(o.as_str())))
            },
            Some(value) => {
                if key.as_str().unicode_len() == 0 {
                    let m = String::from_str("invalid key: ");
                    return Err(Error::Parse(m.concat(o.as_str())));
                }
                if value.as_str().unicode_len() == 0 {
                    let m = String::from_str("invalid value: ");
                    return Err(Error::Parse(m.concat(o.as_str())));
                }
                if key == String::from_str("count") {
                    match parse_usize(value.as_str()) {
                        Some(v) => {
                            self.count_threshold = v;
                            Ok(())
                        },
                        None => Err(Error::Parse(String::from_str("option value must be a number"))),
                    }
                } else if key == String::from_str("heapDumpPath") {
                    self.heap_dump_path = Some(value);
                    Ok(())
                } else if key == String::from_str("heapHistogramMaxEntries") {
                    match parse_usize(value.as_str()) {
                        Some(v) => {
                            self.heap_histogram_max_entries = v;
                            Ok(())
                        },
                        None => Err(Error::Parse(String::from_str("option value must be a number"))),
                    }
                } else if key == String::from_str("printHeapHistogram") {
                    match parse_usize(value.as_str()) {
                        Some(v) => {
                            self.print_heap_histogram = v != 0;
                            Ok(())
                        },
                        None => Err(Error::Parse(String::from_str("option value must be a number"))),
                    }
                } else if key == String::from_str("printMemoryUsage") {
                    match parse_usize(value.as_str()) {
                        Some(v) => {
                            self.print_memory_usage = v != 0;
                            Ok(())
                        },
                        None => Err(Error::Parse(String::from_str("option value must be a number"))),
                    }
                } else if key == String::from_str("time") {
                    match parse_usize(value.as_str()) {
                        Some(v) => {
                            self.time_threshold = v;
                            Ok(())
                        },
                        None => Err(Error::Parse(String::from_str("option value must be a number"))),
                    }
                } else {
                    let m = String::from_str("unknown option: ");
                    Err(Error::Parse(m.concat(key.as_str())))
                }
            },
        }
    }

    /// Builds the record from the startup option string.  No option string
    /// at all yields the defaults; a malformed string yields the parse
    /// error that `spec_parse_parameters` names for it.
    pub fn new(options: Option<&str>) -> (r: Result<Parameters, Error>)
        ensures
            match options {
                None => (match r {
                    Ok(p) => p@ == spec_default_parameters(),
                    Err(_) => false,
                }),
                Some(s) => (match spec_parse_parameters(s@) {
                    Ok(v) => (match r {
                        Ok(p) => p@ == v,
                        Err(_) => false,
                    }),
                    Err(m) => (match r {
                        Err(Error::Parse(msg)) => msg@ == m,
                        _ => false,
                    }),
                }),
            },
    {
        let mut p = Parameters::default();
        let s = match options {
            None => {
                return Ok(p);
            },
            Some(s) => s,
        };
        let parts = split_on(s, ',');
        let ghost all = parts@.map_values(|t: String| t@);
        let mut i: usize = 0;
        proof {
            assert(all.subrange(0, all.len() as int) =~= all);
        }
        while i < parts.len()
            invariant
                i <= parts.len(),
                options == Some(s),
                all == parts@.map_values(|t: String| t@),
                spec_parse_parameters(s@) == spec_parse_parameters_from(
                    p@,
                    all.subrange(i as int, all.len() as int),
                ),
            decreases parts.len() - i,
        {
            let ghost rest = all.subrange(i as int, all.len() as int);
            proof {
                assert(rest[0] == all[i as int]);
                assert(all[i as int] == parts@[i as int]@);
                assert(rest.subrange(1, rest.len() as int) =~= all.subrange(
                    i + 1,
                    all.len() as int,
                ));
            }
            let ghost pre = p@;
            match p.apply_option(&parts[i]) {
                Ok(()) => {
                    proof {
                        assert(spec_apply_option(pre, rest[0]) == Ok::<ParametersView, Seq<char>>(
                            p@,
                        ));
                        assert(spec_parse_parameters_from(pre, rest)
                            == spec_parse_parameters_from(
                            p@,
                            rest.subrange(1, rest.len() as int),
                        ));
                    }
                },
                Err(e) => {
                    proof {
                        assert(spec_apply_option(pre, rest[0]) is Err);
                        assert(spec_parse_parameters_from(pre, rest) == spec_apply_option(
                            pre,
                            rest[0],
                        ));
                    }
                    return Err(e);
                },
            }
            i = i + 1;
        }
        proof {
            assert(all.subrange(all.len() as int, all.len() as int) =~= Seq::<Seq<char>>::empty());
        }
        Ok(p)
    }
}

} // verus!
