//! White space and trimming.

use vstd::prelude::*;
use crate::text::slice;

verus! {

/// Whether `c` is a white-space character in the sense of the standard
/// library's `char::is_whitespace`.
pub uninterp spec fn is_space(c: char) -> bool;

/// `char::is_whitespace`: whether the character has the Unicode property
/// White_Space. The answer depends on the character alone; `is_space` is the
/// name under which the contracts of this crate refer to it.
#[verifier::external_body]
pub(crate) fn is_whitespace(c: char) -> (b: bool)
    ensures
        b == is_space(c),
{
    c.is_whitespace()
}

/// Whether `c` is a letter in the sense of the standard library's
/// `char::is_alphabetic`.
pub uninterp spec fn is_letter(c: char) -> bool;

/// `char::is_alphabetic`: whether the character has the Unicode property
/// Alphabetic. The answer depends on the character alone; `is_letter` is
/// the name under which the contracts of this crate refer to it.
#[verifier::external_body]
pub(crate) fn is_alphabetic(c: char) -> (b: bool)
    ensures
        b == is_letter(c),
{
    c.is_alphabetic()
}

/// Length of `s` once its trailing white space is removed.
pub open spec fn trim_end_len(s: Seq<char>) -> int
    decreases s.len(),
{
    if s.len() > 0 && is_space(s.last()) {
        trim_end_len(s.drop_last())
    } else {
        s.len() as int
    }
}

/// Number of white-space characters at the start of `s`.
pub open spec fn trim_start_len(s: Seq<char>) -> int
    decreases s.len(),
{
    if s.len() > 0 && is_space(s[0]) {
        1 + trim_start_len(s.drop_first())
    } else {
        0
    }
}

/// `s` without its trailing white space.
pub open spec fn trim_end(s: Seq<char>) -> Seq<char> {
    s.take(trim_end_len(s))
}

/// `s` without its leading white space.
pub open spec fn trim_start(s: Seq<char>) -> Seq<char> {
    s.skip(trim_start_len(s))
}

/// `s` without its leading and trailing white space.
pub open spec fn trim(s: Seq<char>) -> Seq<char> {
    trim_end(trim_start(s))
}

/// Position just after the last character of `s` that is kept by `trim_end`.
pub fn trimmed_end(s: &Vec<char>) -> (n: usize)
    ensures
        n == trim_end_len(s@),
        n <= s.len(),
{
    let mut n: usize = s.len();
    proof {
        assert(s@.take(n as int) =~= s@);
    }
    while n > 0 && is_whitespace(s[n - 1])
        invariant
            n <= s.len(),
            trim_end_len(s@) == trim_end_len(s@.take(n as int)),
        decreases n,
    {
        proof {
            assert(s@.take(n as int).drop_last() =~= s@.take(n - 1));
        }
        n -= 1;
    }
    n
}

/// Position of the first character of `s` that is kept by `trim_start`.
pub fn trimmed_start(s: &Vec<char>) -> (n: usize)
    ensures
        n == trim_start_len(s@),
        n <= s.len(),
{
    let mut n: usize = 0;
    proof {
        assert(s@.skip(0) =~= s@);
    }
    while n < s.len() && is_whitespace(s[n])
        invariant
            n <= s.len(),
            trim_start_len(s@) == n + trim_start_len(s@.skip(n as int)),
        decreases s.len() - n,
    {
        proof {
            assert(s@.skip(n as int).drop_first() =~= s@.skip(n + 1));
        }
        n += 1;
    }
    n
}

/// `s` without its trailing white space.
pub fn trim_end_of(s: &Vec<char>) -> (t: Vec<char>)
    ensures
        t@ == trim_end(s@),
{
    let n: usize = trimmed_end(s);
    slice(s, 0, n)
}

/// `s` without its leading and trailing white space.
pub fn trim_of(s: &Vec<char>) -> (t: Vec<char>)
    ensures
        t@ == trim(s@),
{
    let a: usize = trimmed_start(s);
    let rest: Vec<char> = slice(s, a, s.len());
    trim_end_of(&rest)
}

} // verus!
