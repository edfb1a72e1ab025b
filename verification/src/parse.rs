//! Splitting and number reading for the startup option string.
//!
//! The option string is a comma-separated list of `key=value` pairs.  The
//! functions here split such a string and read decimal values, each proved
//! against a spec-level description of the same grammar.

use vstd::prelude::*;

verus! {

/// The position of the first occurrence of `c` in `s`, or -1 when absent.
pub open spec fn spec_find(s: Seq<char>, c: char) -> int
    decreases s.len(),
{
    if s.len() == 0 {
        -1
    } else if s[0] == c {
        0
    } else {
        let r = spec_find(s.subrange(1, s.len() as int), c);
        if r < 0 {
            -1
        } else {
            1 + r
        }
    }
}

/// `s` split at every occurrence of `sep`.  The empty string yields one
/// empty segment, as Rust's `split` does.
pub open spec fn spec_split(s: Seq<char>, sep: char) -> Seq<Seq<char>>
    decreases s.len(),
{
    if s.len() == 0 {
        seq![Seq::<char>::empty()]
    } else if s[0] == sep {
        seq![Seq::<char>::empty()] + spec_split(s.subrange(1, s.len() as int), sep)
    } else {
        let r = spec_split(s.subrange(1, s.len() as int), sep);
        seq![seq![s[0]] + r[0]] + r.subrange(1, r.len() as int)
    }
}

proof fn lemma_split_len(s: Seq<char>, sep: char)
    ensures
        spec_split(s, sep).len() >= 1,
    decreases s.len(),
{
    if s.len() > 0 {
        lemma_split_len(s.subrange(1, s.len() as int), sep);
    }
}

/// Splitting at the first separator: everything before it is the first
/// segment, and the rest splits on its own.
proof fn lemma_split_at_first(s: Seq<char>, sep: char, k: int)
    requires
        0 <= k < s.len(),
        s[k] == sep,
        forall|j: int| 0 <= j < k ==> s[j] != sep,
    ensures
        spec_split(s, sep) =~~= seq![s.subrange(0, k)] + spec_split(
            s.subrange(k + 1, s.len() as int),
            sep,
        ),
    decreases s.len(),
{
    let t = s.subrange(1, s.len() as int);
    if k == 0 {
        assert(s.subrange(0, 0) =~= Seq::<char>::empty());
    } else {
        assert(t[k - 1] == s[k]);
        assert forall|j: int| 0 <= j < k - 1 implies t[j] != sep by {
            assert(t[j] == s[j + 1]);
        }
        lemma_split_at_first(t, sep, k - 1);
        lemma_split_len(t.subrange(k as int, t.len() as int), sep);
        let r = spec_split(t, sep);
        assert(r[0] == t.subrange(0, k - 1));
        assert(seq![s[0]] + t.subrange(0, k - 1) =~= s.subrange(0, k));
        assert(t.subrange(k as int, t.len() as int) =~= s.subrange(k + 1, s.len() as int));
        assert(r.subrange(1, r.len() as int) =~~= spec_split(
            s.subrange(k + 1, s.len() as int),
            sep,
        ));
    }
}

/// Splitting a string without the separator yields that one segment.
proof fn lemma_split_no_sep(s: Seq<char>, sep: char)
    requires
        forall|j: int| 0 <= j < s.len() ==> s[j] != sep,
    ensures
        spec_split(s, sep) =~~= seq![s],
    decreases s.len(),
{
    if s.len() > 0 {
        let t = s.subrange(1, s.len() as int);
        assert forall|j: int| 0 <= j < t.len() implies t[j] != sep by {
            assert(t[j] == s[j + 1]);
        }
        lemma_split_no_sep(t, sep);
        assert(seq![s[0]] + t =~= s);
    }
}

/// `s` split at the first occurrence of `sep` only: the part before it and,
/// when `sep` occurs at all, the part after it.
pub open spec fn spec_split_once(s: Seq<char>, sep: char) -> (Seq<char>, Option<Seq<char>>) {
    let i = spec_find(s, sep);
    if i < 0 {
        (s, None)
    } else {
        (s.subrange(0, i), Some(s.subrange(i + 1, s.len() as int)))
    }
}

proof fn lemma_find_at(s: Seq<char>, c: char, k: int)
    requires
        0 <= k < s.len(),
        s[k] == c,
        forall|j: int| 0 <= j < k ==> s[j] != c,
    ensures
        spec_find(s, c) == k,
    decreases s.len(),
{
    if k == 0 {
    } else {
        let t = s.subrange(1, s.len() as int);
        assert forall|j: int| 0 <= j < k - 1 implies t[j] != c by {
            assert(t[j] == s[j + 1]);
        }
        assert(t[k - 1] == c);
        lemma_find_at(t, c, k - 1);
    }
}

proof fn lemma_find_none(s: Seq<char>, c: char)
    requires
        forall|j: int| 0 <= j < s.len() ==> s[j] != c,
    ensures
        spec_find(s, c) < 0,
    decreases s.len(),
{
    if s.len() > 0 {
        let t = s.subrange(1, s.len() as int);
        assert forall|j: int| 0 <= j < t.len() implies t[j] != c by {
            assert(t[j] == s[j + 1]);
        }
        lemma_find_none(t, c);
    }
}

/// Splits `s` at every occurrence of `sep`.
pub fn split_on(s: &str, sep: char) -> (r: Vec<String>)
    ensures
        r@.map_values(|t: String| t@) == spec_split(s@, sep),
{
    let n = s.unicode_len();
    let mut parts: Vec<String> = Vec::new();
    let mut start: usize = 0;
    let mut i: usize = 0;
    proof {
        assert(s@.subrange(0, n as int) =~= s@);
        assert(parts@.map_values(|t: String| t@) =~= Seq::<Seq<char>>::empty());
    }
    while i < n
        invariant
            start <= i <= n,
            n == s@.len(),
            forall|j: int| start <= j < i ==> s@[j] != sep,
            spec_split(s@, sep) =~~= parts@.map_values(|t: String| t@) + spec_split(
                s@.subrange(start as int, n as int),
                sep,
            ),
        decreases n - i,
    {
        if s.get_char(i) == sep {
            let seg = String::from_str(s.substring_char(start, i));
            proof {
                let rest = s@.subrange(start as int, n as int);
                let k = i - start;
                assert(rest[k] == s@[i as int]);
                assert forall|j: int| 0 <= j < k implies rest[j] != sep by {
                    assert(rest[j] == s@[start + j]);
                }
                lemma_split_at_first(rest, sep, k);
                assert(rest.subrange(0, k) =~= s@.subrange(start as int, i as int));
                assert(rest.subrange(k + 1, rest.len() as int) =~= s@.subrange(
                    i + 1,
                    n as int,
                ));
            }
            parts.push(seg);
            proof {
                assert(parts@.map_values(|t: String| t@) =~~= parts@.subrange(
                    0,
                    parts@.len() - 1,
                ).map_values(|t: String| t@).push(s@.subrange(start as int, i as int)));
            }
            start = i + 1;
        }
        i = i + 1;
    }
    let seg = String::from_str(s.substring_char(start, n));
    proof {
        let rest = s@.subrange(start as int, n as int);
        assert forall|j: int| 0 <= j < rest.len() implies rest[j] != sep by {
            assert(rest[j] == s@[start + j]);
        }
        lemma_split_no_sep(rest, sep);
    }
    parts.push(seg);
    proof {
        assert(parts@.map_values(|t: String| t@) =~~= parts@.subrange(0, parts@.len() - 1)
            .map_values(|t: String| t@).push(s@.subrange(start as int, n as int)));
    }
    parts
}

/// Splits `s` at the first occurrence of `sep`.
pub fn split_once_on(s: &str, sep: char) -> (r: (String, Option<String>))
    ensures
        ({
            let (a, b) = spec_split_once(s@, sep);
            r.0@ == a && (match (r.1, b) {
                (Some(x), Some(y)) => x@ == y,
                (None, None) => true,
                _ => false,
            })
        }),
{
    let n = s.unicode_len();
    let mut i: usize = 0;
    while i < n
        invariant
            i <= n,
            n == s@.len(),
            forall|j: int| 0 <= j < i ==> s@[j] != sep,
        decreases n - i,
    {
        if s.get_char(i) == sep {
            proof {
                lemma_find_at(s@, sep, i as int);
            }
            let before = String::from_str(s.substring_char(0, i));
            let after = String::from_str(s.substring_char(i + 1, n));
            return (before, Some(after));
        }
        i = i + 1;
    }
    proof {
        lemma_find_none(s@, sep);
    }
    (String::from_str(s), None)
}

/// True when `c` is a decimal digit.
pub open spec fn spec_is_digit(c: char) -> bool {
    '0' <= c && c <= '9'
}

/// True when `s` is a non-empty run of decimal digits.
pub open spec fn spec_all_digits(s: Seq<char>) -> bool {
    s.len() > 0 && forall|i: int| 0 <= i < s.len() ==> spec_is_digit(#[trigger] s[i])
}

/// The value of a run of decimal digits.
pub open spec fn spec_digits_val(s: Seq<char>) -> int
    decreases s.len(),
{
    if s.len() == 0 {
        0
    } else {
        10 * spec_digits_val(s.drop_last()) + (s.last() as int - '0' as int)
    }
}

proof fn lemma_digits_val_nonneg(s: Seq<char>)
    requires
        forall|i: int| 0 <= i < s.len() ==> spec_is_digit(#[trigger] s[i]),
    ensures
        spec_digits_val(s) >= 0,
    decreases s.len(),
{
    if s.len() > 0 {
        lemma_digits_val_nonneg(s.drop_last());
    }
}

proof fn lemma_digits_val_prefix_le(s: Seq<char>, k: int)
    requires
        forall|i: int| 0 <= i < s.len() ==> spec_is_digit(#[trigger] s[i]),
        0 <= k <= s.len(),
    ensures
        spec_digits_val(s.subrange(0, k)) <= spec_digits_val(s),
    decreases s.len() - k,
{
    if k < s.len() {
        let p = s.subrange(0, k);
        let q = s.subrange(0, k + 1);
        assert(q.drop_last() =~= p);
        lemma_digits_val_nonneg(p);
        assert(spec_digits_val(q) == 10 * spec_digits_val(p) + (q.last() as int - '0' as int));
        assert(spec_digits_val(p) <= spec_digits_val(q));
        lemma_digits_val_prefix_le(s, k + 1);
    } else {
        assert(s.subrange(0, k) =~= s);
    }
}

/// Reads a non-empty run of decimal digits as a `usize`.  Returns `None`
/// when the string is empty, holds a non-digit, or names a value beyond
/// `usize::MAX`.  Unlike `str::parse::<usize>`, a leading `+` sign is not
/// accepted: an option value here is plain digits.
pub fn parse_usize(s: &str) -> (r: Option<usize>)
    ensures
        match r {
            Some(v) => spec_all_digits(s@) && v == spec_digits_val(s@),
            None => !spec_all_digits(s@) || spec_digits_val(s@) > usize::MAX,
        },
{
    let n = s.unicode_len();
    if n == 0 {
        return None;
    }
    let mut acc: usize = 0;
    let mut i: usize = 0;
    while i < n
        invariant
            i <= n,
            n == s@.len(),
            n > 0,
            forall|j: int| 0 <= j < i ==> spec_is_digit(#[trigger] s@[j]),
            acc == spec_digits_val(s@.subrange(0, i as int)),
        decreases n - i,
    {
        let c = s.get_char(i);
        if !(c >= '0' && c <= '9') {
            return None;
        }
        let d: usize = (c as u32 as usize) - 48;
        let next = match acc.checked_mul(10) {
            Some(m) => match m.checked_add(d) {
                Some(v) => v,
                None => {
                    proof {
                        assert(s@.subrange(0, i + 1).drop_last() =~= s@.subrange(0, i as int));
                        if spec_all_digits(s@) {
                            lemma_digits_val_prefix_le(s@, i + 1);
                        }
                    }
                    return None;
                },
            },
            None => {
                proof {
                    assert(s@.subrange(0, i + 1).drop_last() =~= s@.subrange(0, i as int));
                    lemma_digits_val_nonneg(s@.subrange(0, i as int));
                    if spec_all_digits(s@) {
                        lemma_digits_val_prefix_le(s@, i + 1);
                    }
                }
                return None;
            },
        };
        proof {
            assert(s@.subrange(0, i + 1).drop_last() =~= s@.subrange(0, i as int));
        }
        acc = next;
        i = i + 1;
    }
    proof {
        assert(s@.subrange(0, n as int) =~= s@);
    }
    Some(acc)
}

} // verus!
