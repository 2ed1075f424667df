//! Byte-to-text conversion and small text utilities used by the decoder and
//! the analyzers.

use vstd::prelude::*;
use vstd::string::{StringExecFns, StrSliceExecFns};
use vstd::utf8::{valid_utf8, decode_utf8};

verus! {

/// A copy of `bytes[a..b]`.
pub(crate) fn copy_range(bytes: &Vec<u8>, a: usize, b: usize) -> (r: Vec<u8>)
    requires
        a <= b <= bytes@.len(),
    ensures
        r@ == bytes@.subrange(a as int, b as int),
{
    let mut out: Vec<u8> = Vec::new();
    let mut i = a;
    while i < b
        invariant
            a <= i <= b <= bytes@.len(),
            out@ == bytes@.subrange(a as int, i as int),
        decreases b - i,
    {
        out.push(bytes[i]);
        proof {
            assert(out@ =~= bytes@.subrange(a as int, i + 1));
        }
        i = i + 1;
    }
    out
}

/// Relies on `core::str::from_utf8`: it returns the string borrowing the
/// given bytes exactly when they are valid UTF-8, and that string's
/// characters are the UTF-8 decoding of the bytes.
#[verifier::external_body]
pub(crate) fn utf8_decode(v: &[u8]) -> (r: Option<&str>)
    ensures
        r is Some <==> valid_utf8(v@),
        r matches Some(s) ==> s@ == decode_utf8(v@),
{
    core::str::from_utf8(v).ok()
}

/// The decimal digits of a number, most significant first.
pub open spec fn spec_u32_digits(n: int) -> Seq<char>
    decreases n,
{
    if n < 10 {
        spec_digit(n)
    } else {
        spec_u32_digits(n / 10) + spec_digit(n % 10)
    }
}

/// One decimal digit as text.
pub open spec fn spec_digit(d: int) -> Seq<char> {
    if d == 0 {
        "0"@
    } else if d == 1 {
        "1"@
    } else if d == 2 {
        "2"@
    } else if d == 3 {
        "3"@
    } else if d == 4 {
        "4"@
    } else if d == 5 {
        "5"@
    } else if d == 6 {
        "6"@
    } else if d == 7 {
        "7"@
    } else if d == 8 {
        "8"@
    } else {
        "9"@
    }
}

fn digit_str(d: u32) -> (s: &'static str)
    requires
        d < 10,
    ensures
        s@ == spec_digit(d as int),
{
    if d == 0 {
        "0"
    } else if d == 1 {
        "1"
    } else if d == 2 {
        "2"
    } else if d == 3 {
        "3"
    } else if d == 4 {
        "4"
    } else if d == 5 {
        "5"
    } else if d == 6 {
        "6"
    } else if d == 7 {
        "7"
    } else if d == 8 {
        "8"
    } else {
        "9"
    }
}

/// Renders a number in decimal.
pub(crate) fn u32_digits(n: u32) -> (s: String)
    ensures
        s@ == spec_u32_digits(n as int),
    decreases n,
{
    if n < 10 {
        String::from_str(digit_str(n))
    } else {
        let mut s = u32_digits(n / 10);
        s.append(digit_str(n % 10));
        s
    }
}

// ----------------------------------------------------------------------------
// Text matching.

/// The pattern occurs at position `i`.
pub open spec fn spec_match_at(s: Seq<char>, pat: Seq<char>, i: int) -> bool {
    forall|k: int| 0 <= k < pat.len() ==> s[i + k] == #[trigger] pat[k]
}

/// The pattern occurs somewhere in the text.
pub open spec fn spec_str_contains(s: Seq<char>, pat: Seq<char>) -> bool {
    exists|i: int| 0 <= i && i + pat.len() <= s.len() && #[trigger] spec_match_at(s, pat, i)
}

/// The text starts with the pattern.
pub open spec fn spec_str_starts_with(s: Seq<char>, pat: Seq<char>) -> bool {
    pat.len() <= s.len() && spec_match_at(s, pat, 0)
}

/// `c` matches `p` up to ASCII case: the pattern is already lower case, an
/// upper-case ASCII letter in the text matches its lower-case form, and any
/// other character, non-ASCII included, matches only verbatim.
pub open spec fn spec_lower_match(c: char, p: char) -> bool {
    c == p || (97 <= p as u32 <= 122 && c as u32 + 32 == p as u32)
}

pub open spec fn spec_match_at_ci(s: Seq<char>, pat: Seq<char>, i: int) -> bool {
    forall|k: int| 0 <= k < pat.len() ==> spec_lower_match(s[i + k], #[trigger] pat[k])
}

/// The pattern occurs somewhere in the text, compared without regard to
/// ASCII case.
pub open spec fn spec_str_contains_ci(s: Seq<char>, pat: Seq<char>) -> bool {
    exists|i: int| 0 <= i && i + pat.len() <= s.len() && #[trigger] spec_match_at_ci(s, pat, i)
}

fn match_at(s: &str, pat: &str, i: usize, n: usize, m: usize) -> (r: bool)
    requires
        n == s@.len(),
        m == pat@.len(),
        i + m <= n,
    ensures
        r == spec_match_at(s@, pat@, i as int),
{
    let mut k: usize = 0;
    while k < m
        invariant
            k <= m,
            n == s@.len(),
            m == pat@.len(),
            i + m <= n,
            forall|q: int| 0 <= q < k ==> s@[i + q] == #[trigger] pat@[q],
        decreases m - k,
    {
        if s.get_char(i + k) != pat.get_char(k) {
            proof {
                assert(!spec_match_at(s@, pat@, i as int)) by {
                    assert(s@[i + k] != pat@[k as int]);
                }
            }
            return false;
        }
        k = k + 1;
    }
    true
}

fn match_at_ci(s: &str, pat: &str, i: usize, n: usize, m: usize) -> (r: bool)
    requires
        n == s@.len(),
        m == pat@.len(),
        i + m <= n,
    ensures
        r == spec_match_at_ci(s@, pat@, i as int),
{
    let mut k: usize = 0;
    while k < m
        invariant
            k <= m,
            n == s@.len(),
            m == pat@.len(),
            i + m <= n,
            forall|q: int| 0 <= q < k ==> spec_lower_match(s@[i + q], #[trigger] pat@[q]),
        decreases m - k,
    {
        let c = s.get_char(i + k);
        let p = pat.get_char(k);
        let hit = c == p || (97 <= p as u32 && p as u32 <= 122 && c as u32 + 32 == p as u32);
        if !hit {
            proof {
                assert(!spec_match_at_ci(s@, pat@, i as int)) by {
                    assert(!spec_lower_match(s@[i + k], pat@[k as int]));
                }
            }
            return false;
        }
        k = k + 1;
    }
    true
}

/// Substring search, specified over the character sequences.
pub fn str_contains(s: &str, pat: &str) -> (r: bool)
    ensures
        r == spec_str_contains(s@, pat@),
{
    let n = s.unicode_len();
    let m = pat.unicode_len();
    if m > n {
        return false;
    }
    let mut i: usize = 0;
    while i <= n - m
        invariant
            m <= n,
            n == s@.len(),
            m == pat@.len(),
            forall|q: int| 0 <= q < i ==> !#[trigger] spec_match_at(s@, pat@, q),
        decreases n + 1 - i,
    {
        if match_at(s, pat, i, n, m) {
            return true;
        }
        i = i + 1;
    }
    false
}

/// Substring search without regard to ASCII case; the pattern is given in
/// lower case.
pub fn str_contains_ci(s: &str, pat: &str) -> (r: bool)
    ensures
        r == spec_str_contains_ci(s@, pat@),
{
    let n = s.unicode_len();
    let m = pat.unicode_len();
    if m > n {
        return false;
    }
    let mut i: usize = 0;
    while i <= n - m
        invariant
            m <= n,
            n == s@.len(),
            m == pat@.len(),
            forall|q: int| 0 <= q < i ==> !#[trigger] spec_match_at_ci(s@, pat@, q),
        decreases n + 1 - i,
    {
        if match_at_ci(s, pat, i, n, m) {
            return true;
        }
        i = i + 1;
    }
    false
}

/// Prefix test, specified over the character sequences.
pub fn str_starts_with(s: &str, pat: &str) -> (r: bool)
    ensures
        r == spec_str_starts_with(s@, pat@),
{
    let n = s.unicode_len();
    let m = pat.unicode_len();
    if m > n {
        return false;
    }
    match_at(s, pat, 0, n, m)
}

/// Text equality, specified over the character sequences.
pub fn str_eq(s: &str, t: &str) -> (r: bool)
    ensures
        r == (s@ == t@),
{
    let n = s.unicode_len();
    let m = t.unicode_len();
    if m != n {
        return false;
    }
    let r = match_at(s, t, 0, n, m);
    proof {
        if r {
            assert(s@ =~= t@);
        } else {
            assert(s@ != t@) by {
                if s@ == t@ {
                    assert(spec_match_at(s@, t@, 0));
                }
            }
        }
    }
    r
}

/// Renders a machine-word count in decimal.
pub(crate) fn u64_digits(n: u64) -> (s: String)
    ensures
        s@ == spec_u32_digits(n as int),
    decreases n,
{
    if n < 10 {
        String::from_str(digit_str(n as u32))
    } else {
        let mut s = u64_digits(n / 10);
        s.append(digit_str((n % 10) as u32));
        s
    }
}

} // verus!
