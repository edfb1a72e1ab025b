//! Decimal rendering and column padding for the diagnostic reports.
//!
//! Every report this crate produces is plain text; the helpers here turn
//! numbers into their decimal digit sequences and pad table columns with
//! spaces.  Each executable function is proved to produce exactly the
//! sequence of characters that its spec-level counterpart describes.

use vstd::prelude::*;

verus! {

/// The character for a single decimal digit.
pub open spec fn spec_digit(d: nat) -> char {
    if d == 0 {
        '0'
    } else if d == 1 {
        '1'
    } else if d == 2 {
        '2'
    } else if d == 3 {
        '3'
    } else if d == 4 {
        '4'
    } else if d == 5 {
        '5'
    } else if d == 6 {
        '6'
    } else if d == 7 {
        '7'
    } else if d == 8 {
        '8'
    } else {
        '9'
    }
}

/// The decimal rendering of a natural number, most significant digit first,
/// with no leading zeroes (except for zero itself).
pub open spec fn spec_udec(n: nat) -> Seq<char>
    decreases n,
{
    if n < 10 {
        seq![spec_digit(n)]
    } else {
        spec_udec(n / 10).push(spec_digit(n % 10))
    }
}

/// The decimal rendering of an integer: a minus sign for negative values,
/// then the digits of the magnitude.
pub open spec fn spec_idec(n: int) -> Seq<char> {
    if n < 0 {
        seq!['-'] + spec_udec((-n) as nat)
    } else {
        spec_udec(n as nat)
    }
}

/// `n` spaces.
pub open spec fn spec_spaces(n: nat) -> Seq<char>
    decreases n,
{
    if n == 0 {
        Seq::<char>::empty()
    } else {
        spec_spaces((n - 1) as nat).push(' ')
    }
}

/// `s` padded with spaces on the right up to width `w`; a longer string is
/// left as it is.
pub open spec fn spec_pad_right(s: Seq<char>, w: nat) -> Seq<char> {
    if s.len() >= w {
        s
    } else {
        s + spec_spaces((w - s.len()) as nat)
    }
}

/// One decimal digit as a string.
fn digit_str(d: u64) -> (r: String)
    requires
        d < 10,
    ensures
        r@ == seq![spec_digit(d as nat)],
{
    let s: &str = if d == 0 {
        "0"
    } else if d == 1 {
        "1"
    } else if d == 2 {
        "2"
    } else if d == 3 {
        "3"
    } else if d == 4 {
        "4"
    } else if d == 5 {
        "5"
    } else if d == 6 {
        "6"
    } else if d == 7 {
        "7"
    } else if d == 8 {
        "8"
    } else {
        "9"
    };
    proof {
        reveal_strlit("0");
        reveal_strlit("1");
        reveal_strlit("2");
        reveal_strlit("3");
        reveal_strlit("4");
        reveal_strlit("5");
        reveal_strlit("6");
        reveal_strlit("7");
        reveal_strlit("8");
        reveal_strlit("9");
    }
    String::from_str(s)
}

/// Renders an unsigned number in decimal.
pub fn udec(n: u64) -> (r: String)
    ensures
        r@ == spec_udec(n as nat),
    decreases n,
{
    if n < 10 {
        digit_str(n)
    } else {
        let prefix = udec(n / 10);
        let last = digit_str(n % 10);
        prefix.concat(last.as_str())
    }
}

/// Renders a signed number in decimal.
pub fn idec(n: i64) -> (r: String)
    ensures
        r@ == spec_idec(n as int),
{
    if n >= 0 {
        udec(n as u64)
    } else {
        let magnitude: u64 = if n == i64::MIN {
            9223372036854775808u64
        } else {
            (-n) as u64
        };
        proof {
            reveal_strlit("-");
        }
        let sign = String::from_str("-");
        sign.concat(udec(magnitude).as_str())
    }
}

/// A string of `n` spaces.
pub fn spaces(n: usize) -> (r: String)
    ensures
        r@ == spec_spaces(n as nat),
{
    let mut r = String::new();
    let mut i: usize = 0;
    proof {
        reveal_strlit(" ");
    }
    while i < n
        invariant
            i <= n,
            r@ == spec_spaces(i as nat),
        decreases n - i,
    {
        r.append(" ");
        proof {
            reveal_strlit(" ");
            assert(" "@ == seq![' ']);
            assert(spec_spaces((i + 1) as nat) == spec_spaces(i as nat).push(' '));
            assert(r@ == spec_spaces(i as nat) + seq![' ']);
            assert(spec_spaces(i as nat).push(' ') =~= spec_spaces(i as nat) + seq![' ']);
        }
        i = i + 1;
    }
    r
}

/// Pads `s` on the right with spaces up to width `w`.
pub fn pad_right(s: &str, w: usize) -> (r: String)
    ensures
        r@ == spec_pad_right(s@, w as nat),
{
    let len = s.unicode_len();
    if len >= w {
        String::from_str(s)
    } else {
        let r = String::from_str(s);
        r.concat(spaces(w - len).as_str())
    }
}

} // verus!
