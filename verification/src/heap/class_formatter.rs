//! Demangling of host class signatures into readable names.
//!
//! A signature is any number of leading `[` (one per array dimension),
//! then either a one-letter primitive code or `L<name>;` for a class,
//! whose `/` separators read as `.`.  `spec_demangle` is the grammar;
//! anything outside it is a reported error, never passed through.

use vstd::prelude::*;

use crate::err::Error;

verus! {

/// The readable name of a primitive type code.
pub open spec fn spec_primitive_name(c: char) -> Option<Seq<char>> {
    if c == 'Z' {
        Some("boolean"@)
    } else if c == 'B' {
        Some("byte"@)
    } else if c == 'C' {
        Some("char"@)
    } else if c == 'D' {
        Some("double"@)
    } else if c == 'F' {
        Some("float"@)
    } else if c == 'I' {
        Some("int"@)
    } else if c == 'J' {
        Some("long"@)
    } else if c == 'S' {
        Some("short"@)
    } else {
        None
    }
}

/// The number of leading `[` characters: the array dimension count.
pub open spec fn spec_dims(s: Seq<char>) -> int
    decreases s.len(),
{
    if s.len() > 0 && s[0] == '[' {
        1 + spec_dims(s.subrange(1, s.len() as int))
    } else {
        0
    }
}

/// `n` copies of `[]`.
pub open spec fn spec_brackets(n: nat) -> Seq<char>
    decreases n,
{
    if n == 0 {
        Seq::<char>::empty()
    } else {
        spec_brackets((n - 1) as nat) + "[]"@
    }
}

/// Package separators read as dots.
pub open spec fn spec_dots(s: Seq<char>) -> Seq<char> {
    s.map_values(
        |c: char|
            if c == '/' {
                '.'
            } else {
                c
            },
    )
}

/// The readable form of a signature, or nothing for text outside the
/// grammar.
pub open spec fn spec_demangle(s: Seq<char>) -> Option<Seq<char>> {
    let d = spec_dims(s);
    let rest = s.subrange(d, s.len() as int);
    if rest.len() == 0 {
        None
    } else if rest[0] == 'L' {
        let body = rest.subrange(1, rest.len() - 1);
        if rest.len() >= 3 && rest.last() == ';' && (forall|j: int|
            0 <= j < body.len() ==> body[j] != ';') {
            Some(spec_dots(body) + spec_brackets(d as nat))
        } else {
            None
        }
    } else {
        match spec_primitive_name(rest[0]) {
            Some(p) => if rest.len() == 1 {
                Some(p + spec_brackets(d as nat))
            } else {
                None
            },
            None => None,
        }
    }
}

/// The dimension count equals the position of the first character that is
/// not `[`.
proof fn lemma_dims_at(s: Seq<char>, k: int)
    requires
        0 <= k <= s.len(),
        forall|j: int| 0 <= j < k ==> s[j] == '[',
        k == s.len() || s[k] != '[',
    ensures
        spec_dims(s) == k,
    decreases s.len(),
{
    if k == 0 {
    } else {
        let t = s.subrange(1, s.len() as int);
        assert forall|j: int| 0 <= j < k - 1 implies t[j] == '[' by {
            assert(t[j] == s[j + 1]);
        }
        if k < s.len() {
            assert(t[k - 1] == s[k]);
        }
        lemma_dims_at(t, k - 1);
    }
}

/// Replaces each package separator with a dot.
fn dots(s: &str) -> (r: String)
    ensures
        r@ == spec_dots(s@),
{
    let n = s.unicode_len();
    let mut out = String::new();
    let mut start: usize = 0;
    let mut i: usize = 0;
    proof {
        assert(out@ =~= spec_dots(s@.subrange(0, 0)));
    }
    while i < n
        invariant
            start <= i <= n,
            n == s@.len(),
            forall|j: int| start <= j < i ==> s@[j] != '/',
            out@ + s@.subrange(start as int, i as int) =~= spec_dots(s@.subrange(0, i as int)),
        decreases n - i,
    {
        if s.get_char(i) == '/' {
            out.append(s.substring_char(start, i));
            out.append(".");
            proof {
                reveal_strlit(".");
                assert(s@.subrange(0, i + 1).drop_last() =~= s@.subrange(0, i as int));
                assert(spec_dots(s@.subrange(0, i + 1)) =~= spec_dots(s@.subrange(0, i as int))
                    + seq!['.']);
                assert(out@ + s@.subrange(i + 1, i + 1) =~= out@);
            }
            start = i + 1;
        } else {
            proof {
                assert(s@.subrange(0, i + 1).drop_last() =~= s@.subrange(0, i as int));
                assert(spec_dots(s@.subrange(0, i + 1)) =~= spec_dots(s@.subrange(0, i as int))
                    + seq![s@[i as int]]);
                assert(s@.subrange(start as int, i + 1) =~= s@.subrange(start as int, i as int)
                    + seq![s@[i as int]]);
            }
        }
        i = i + 1;
    }
    out.append(s.substring_char(start, n));
    proof {
        assert(s@.subrange(0, n as int) =~= s@);
    }
    out
}

/// Turns host class signatures into readable names.
pub struct ClassFormatter {}

impl ClassFormatter {
    pub fn new() -> (r: Self) {
        ClassFormatter {  }
    }

    /// The readable form of `raw`, or the reported error for text outside
    /// the signature grammar.
    pub fn format(&self, raw: &String) -> (r: Result<String, Error>)
        ensures
            match r {
                Ok(s) => spec_demangle(raw@) == Some(s@),
                Err(e) => spec_demangle(raw@) is None && (match e {
                    Error::Parse(m) => m@ == "invalid class name: "@ + raw@,
                    _ => false,
                }),
            },
    {
        let s = raw.as_str();
        let n = s.unicode_len();
        let mut d: usize = 0;
        while d < n && s.get_char(d) == '['
            invariant
                d <= n,
                n == s@.len(),
                forall|j: int| 0 <= j < d ==> s@[j] == '[',
            decreases n - d,
        {
            d = d + 1;
        }
        proof {
            lemma_dims_at(s@, d as int);
        }
        let ghost rest = s@.subrange(d as int, n as int);
        if d == n {
            return Err(Self::invalid(raw));
        }
        let c = s.get_char(d);
        proof {
            assert(rest[0] == s@[d as int]);
        }
        if c == 'L' {
            if n - d < 3 || s.get_char(n - 1) != ';' {
                proof {
                    if n - 1 >= d {
                        assert(rest.last() == s@[n - 1]);
                    }
                }
                return Err(Self::invalid(raw));
            }
            proof {
                assert(rest.last() == s@[n - 1]);
            }
            let ghost body = rest.subrange(1, rest.len() - 1);
            let mut j: usize = d + 1;
            while j < n - 1
                invariant
                    d + 1 <= j <= n - 1,
                    n == s@.len(),
                    n - d >= 3,
                    rest == s@.subrange(d as int, n as int),
                    body == rest.subrange(1, rest.len() - 1),
                    spec_dims(s@) == d,
                    raw@ == s@,
                    rest[0] == 'L',
                    forall|k: int| d + 1 <= k < j ==> s@[k] != ';',
                decreases n - j,
            {
                if s.get_char(j) == ';' {
                    proof {
                        assert(0 <= j - d - 1 < body.len());
                        assert(body[j - d - 1] == rest[j - d]);
                        assert(rest[j - d] == s@[j as int]);
                    }
                    return Err(Self::invalid(raw));
                }
                j = j + 1;
            }
            proof {
                assert forall|k: int| 0 <= k < body.len() implies body[k] != ';' by {
                    assert(body[k] == s@[d + 1 + k]);
                }
            }
            let name = dots(s.substring_char(d + 1, n - 1));
            proof {
                assert(s@.subrange(d + 1, n - 1) =~= body);
            }
            let out = Self::append_brackets(name, d);
            return Ok(out);
        }
        let base: &str = if c == 'Z' {
            "boolean"
        } else if c == 'B' {
            "byte"
        } else if c == 'C' {
            "char"
        } else if c == 'D' {
            "double"
        } else if c == 'F' {
            "float"
        } else if c == 'I' {
            "int"
        } else if c == 'J' {
            "long"
        } else if c == 'S' {
            "short"
        } else {
            return Err(Self::invalid(raw));
        };
        if d + 1 != n {
            return Err(Self::invalid(raw));
        }
        Ok(Self::append_brackets(String::from_str(base), d))
    }

    /// Appends `d` array markers.
    fn append_brackets(base: String, d: usize) -> (r: String)
        ensures
            r@ == base@ + spec_brackets(d as nat),
    {
        let mut out = base;
        let ghost b = out@;
        let mut i: usize = 0;
        proof {
            assert(b + spec_brackets(0) =~= b);
        }
        while i < d
            invariant
                i <= d,
                out@ == b + spec_brackets(i as nat),
            decreases d - i,
        {
            out.append("[]");
            proof {
                assert(spec_brackets((i + 1) as nat) == spec_brackets(i as nat) + "[]"@);
                assert((b + spec_brackets(i as nat)) + "[]"@ =~= b + (spec_brackets(i as nat)
                    + "[]"@));
            }
            i = i + 1;
        }
        out
    }

    /// The reported error for text outside the signature grammar.
    fn invalid(raw: &String) -> (e: Error)
        ensures
            match e {
                Error::Parse(m) => m@ == "invalid class name: "@ + raw@,
                _ => false,
            },
    {
        let m = String::from_str("invalid class name: ");
        Error::Parse(m.concat(raw.as_str()))
    }
}

} // verus!
