//! The older, lenient reading of the startup option string.
//!
//! This parser keeps the default for a key given with an empty value and
//! does not reject empty keys; it shares the option-string grammar and the
//! record shape with `parameters`.

use vstd::prelude::*;

use crate::err::Error;
use crate::parameters::ParametersView;
use crate::parameters::spec_default_parameters;
use crate::parameters::spec_fits_usize;
use crate::parse::spec_digits_val;
use crate::parse::spec_split;
use crate::parse::spec_split_once;
use crate::parse::parse_usize;
use crate::parse::split_on;
use crate::parse::split_once_on;

verus! {

#[derive(Debug)]
pub struct AgentParameters {
    pub time_threshold: usize,
    pub count_threshold: usize,
    pub print_heap_histogram: bool,
    pub heap_histogram_max_entries: usize,
    pub print_memory_usage: bool,
    pub heap_dump_path: Option<String>,
}

impl View for AgentParameters {
    type V = ParametersView;

    open spec fn view(&self) -> ParametersView {
        ParametersView {
            count_threshold: self.count_threshold as int,
            heap_dump_path: match self.heap_dump_path {
                Some(p) => Some(p@),
                None => None,
            },
            heap_histogram_max_entries: self.heap_histogram_max_entries as int,
            print_heap_histogram: self.print_heap_histogram,
            print_memory_usage: self.print_memory_usage,
            time_threshold: self.time_threshold as int,
        }
    }
}

/// A numeric option under the lenient rules: an empty value keeps the
/// running record, a digit run sets the value, anything else is an error.
pub open spec fn spec_lenient_number(value: Seq<char>, current: int) -> Result<int, Seq<char>> {
    if value.len() == 0 {
        Ok(current)
    } else if spec_fits_usize(value) {
        Ok(spec_digits_val(value))
    } else {
        Err("not a number"@)
    }
}

/// One `key=value` pair applied under the lenient rules.
pub open spec fn spec_apply_agent_option(p: ParametersView, o: Seq<char>) -> Result<
    ParametersView,
    Seq<char>,
> {
    if o.len() == 0 {
        Ok(p)
    } else {
        let (key, val) = spec_split_once(o, '=');
        match val {
            None => Err("invalid option: "@ + o),
            Some(value) => {
                if key == "time"@ {
                    match spec_lenient_number(value, p.time_threshold) {
                        Ok(v) => Ok(ParametersView { time_threshold: v, ..p }),
                        Err(e) => Err(e),
                    }
                } else if key == "count"@ {
                    match spec_lenient_number(value, p.count_threshold) {
                        Ok(v) => Ok(ParametersView { count_threshold: v, ..p }),
                        Err(e) => Err(e),
                    }
                } else if key == "printHeapHistogram"@ {
                    match spec_lenient_number(
                        value,
                        if p.print_heap_histogram {
                            1int
                        } else {
                            0int
                        },
                    ) {
                        Ok(v) => Ok(ParametersView { print_heap_histogram: v != 0, ..p }),
                        Err(e) => Err(e),
                    }
                } else if key == "heapHistogramMaxEntries"@ {
                    match spec_lenient_number(value, p.heap_histogram_max_entries) {
                        Ok(v) => Ok(ParametersView { heap_histogram_max_entries: v, ..p }),
                        Err(e) => Err(e),
                    }
                } else if key == "printMemoryUsage"@ {
                    match spec_lenient_number(
                        value,
                        if p.print_memory_usage {
                            1int
                        } else {
                            0int
                        },
                    ) {
                        Ok(v) => Ok(ParametersView { print_memory_usage: v != 0, ..p }),
                        Err(e) => Err(e),
                    }
                } else if key == "heapDumpPath"@ {
                    Ok(ParametersView { heap_dump_path: Some(value), ..p })
                } else {
                    Err("unknown option: "@ + key)
                }
            },
        }
    }
}

/// The option pairs applied in order under the lenient rules.
pub open spec fn spec_parse_agent_parameters_from(p: ParametersView, opts: Seq<Seq<char>>) -> Result<
    ParametersView,
    Seq<char>,
>
    decreases opts.len(),
{
    if opts.len() == 0 {
        Ok(p)
    } else {
        match spec_apply_agent_option(p, opts[0]) {
            Ok(q) => spec_parse_agent_parameters_from(q, opts.subrange(1, opts.len() as int)),
            Err(e) => Err(e),
        }
    }
}

/// The record named by a whole option string under the lenient rules.
pub open spec fn spec_parse_agent_parameters(s: Seq<char>) -> Result<ParametersView, Seq<char>> {
    spec_parse_agent_parameters_from(spec_default_parameters(), spec_split(s, ','))
}

impl AgentParameters {
    fn lenient_number(value: &String, current: usize) -> (r: Result<usize, Error>)
        ensures
            match spec_lenient_number(value@, current as int) {
                Ok(v) => (match r {
                    Ok(x) => x == v,
                    Err(_) => false,
                }),
                Err(m) => (match r {
                    Err(Error::Parse(msg)) => msg@ == m,
                    _ => false,
                }),
            },
    {
        if value.as_str().unicode_len() == 0 {
            Ok(current)
        } else {
            match parse_usize(value.as_str()) {
                Some(v) => Ok(v),
                None => Err(Error::Parse(String::from_str("not a number"))),
            }
        }
    }

    /// Applies one option pair under the lenient rules.
    fn apply_option(&mut self, o: &String) -> (r: Result<(), Error>)
        ensures
            match spec_apply_agent_option(old(self)@, o@) {
                Ok(v) => r is Ok && final(self)@ == v,
                Err(m) => (match r {
                    Err(Error::Parse(msg)) => msg@ == m,
                    _ => false,
                }),
            },
    {
        if o.as_str().unicode_len() == 0 {
            return Ok(());
        }
        let (key, val) = split_once_on(o.as_str(), '=');
        match val {
            None => {
                let m = String::from_str("invalid option: ");
                Err(Error::Parse(m.concat(o.as_str())))
            },
            Some(value) => {
                if key == String::from_str("time") {
                    match Self::lenient_number(&value, self.time_threshold) {
                        Ok(v) => {
                            self.time_threshold = v;
                            Ok(())
                        },
                        Err(e) => Err(e),
                    }
                } else if key == String::from_str("count") {
                    match Self::lenient_number(&value, self.count_threshold) {
                        Ok(v) => {
                            self.count_threshold = v;
                            Ok(())
                        },
                        Err(e) => Err(e),
                    }
                } else if key == String::from_str("printHeapHistogram") {
                    let current: usize = if self.print_heap_histogram {
                        1
                    } else {
                        0
                    };
                    match Self::lenient_number(&value, current) {
                        Ok(v) => {
                            self.print_heap_histogram = v != 0;
                            Ok(())
                        },
                        Err(e) => Err(e),
                    }
                } else if key == String::from_str("heapHistogramMaxEntries") {
                    match Self::lenient_number(&value, self.heap_histogram_max_entries) {
                        Ok(v) => {
                            self.heap_histogram_max_entries = v;
                            Ok(())
                        },
                        Err(e) => Err(e),
                    }
                } else if key == String::from_str("printMemoryUsage") {
                    let current: usize = if self.print_memory_usage {
                        1
                    } else {
                        0
                    };
                    match Self::lenient_number(&value, current) {
                        Ok(v) => {
                            self.print_memory_usage = v != 0;
                            Ok(())
                        },
                        Err(e) => Err(e),
                    }
                } else if key == String::from_str("heapDumpPath") {
                    self.heap_dump_path = Some(value);
                    Ok(())
                } else {
                    let m = String::from_str("unknown option: ");
                    Err(Error::Parse(m.concat(key.as_str())))
                }
            },
        }
    }

    /// Reads the startup option string under the lenient rules.  No option
    /// string at all yields the defaults.
    #[allow(non_snake_case)]
    pub fn parseParameters(options: Option<&str>) -> (r: Result<AgentParameters, Error>)
        ensures
            match options {
                None => (match r {
                    Ok(p) => p@ == spec_default_parameters(),
                    Err(_) => false,
                }),
                Some(s) => (match spec_parse_agent_parameters(s@) {
                    Ok(v) => (match r {
                        Ok(p) => p@ == v,
                        Err(_) => false,
                    }),
                    Err(m) => (match r {
                        Err(Error::Parse(msg)) => msg@ == m,
                        _ => false,
                    }),
                }),
            },
    {
        let mut p = AgentParameters {
            time_threshold: 1,
            count_threshold: 0,
            print_heap_histogram: false,
            heap_histogram_max_entries: 100,
            print_memory_usage: true,
            heap_dump_path: None,
        };
        let s = match options {
            None => {
                return Ok(p);
            },
            Some(s) => s,
        };
        let parts = split_on(s, ',');
        let ghost all = parts@.map_values(|t: String| t@);
        let mut i: usize = 0;
        proof {
            assert(all.subrange(0, all.len() as int) =~= all);
        }
        while i < parts.len()
            invariant
                i <= parts.len(),
                options == Some(s),
                all == parts@.map_values(|t: String| t@),
                spec_parse_agent_parameters(s@) == spec_parse_agent_parameters_from(
                    p@,
                    all.subrange(i as int, all.len() as int),
                ),
            decreases parts.len() - i,
        {
            let ghost rest = all.subrange(i as int, all.len() as int);
            proof {
                assert(rest[0] == all[i as int]);
                assert(all[i as int] == parts@[i as int]@);
                assert(rest.subrange(1, rest.len() as int) =~= all.subrange(
                    i + 1,
                    all.len() as int,
                ));
            }
            let ghost pre = p@;
            match p.apply_option(&parts[i]) {
                Ok(()) => {
                    proof {
                        assert(spec_apply_agent_option(pre, rest[0]) == Ok::<
                            ParametersView,
                            Seq<char>,
                        >(p@));
                        assert(spec_parse_agent_parameters_from(pre, rest)
                            == spec_parse_agent_parameters_from(
                            p@,
                            rest.subrange(1, rest.len() as int),
                        ));
                    }
                },
                Err(e) => {
                    proof {
                        assert(spec_apply_agent_option(pre, rest[0]) is Err);
                        assert(spec_parse_agent_parameters_from(pre, rest)
                            == spec_apply_agent_option(pre, rest[0]));
                    }
                    return Err(e);
                },
            }
            i = i + 1;
        }
        proof {
            assert(all.subrange(all.len() as int, all.len() as int) =~= Seq::<Seq<char>>::empty());
        }
        Ok(p)
    }
}

} // verus!
