//! Conversions between `&str` / `String` and `Vec<char>`.
//!
//! The pipeline's logic works on character vectors; these helpers move
//! between them and the string types that callers hand in and take back.

use vstd::prelude::*;
use vstd::string::StrSliceExecFns;

verus! {

/// Relies on std's String::push: appends exactly the given character to the
/// end of the string.
pub assume_specification[ String::push ](s: &mut String, ch: char)
    ensures
        final(s)@ == old(s)@.push(ch),
;

/// Reads a string slice out into the vector of its characters.
pub fn str_to_chars(s: &str) -> (r: Vec<char>)
    ensures
        r@ == s@,
{
    let n = s.unicode_len();
    let mut r: Vec<char> = Vec::new();
    let mut i: usize = 0;
    while i < n
        invariant
            i <= n,
            n == s@.len(),
            r@ == s@.take(i as int),
        decreases n - i,
    {
        let c = s.get_char(i);
        r.push(c);
        assert(s@.take(i as int).push(s@[i as int]) =~= s@.take(i + 1 as int));
        i = i + 1;
    }
    assert(s@.take(n as int) =~= s@);
    r
}

/// Builds a string whose characters are exactly the given vector.
pub fn chars_to_string(v: &Vec<char>) -> (r: String)
    ensures
        r@ == v@,
{
    let mut r = String::new();
    let mut i: usize = 0;
    while i < v.len()
        invariant
            i <= v@.len(),
            r@ == v@.take(i as int),
        decreases v@.len() - i,
    {
        r.push(v[i]);
        assert(v@.take(i as int).push(v@[i as int]) =~= v@.take(i + 1 as int));
        i = i + 1;
    }
    assert(v@.take(v@.len() as int) =~= v@);
    r
}

} // verus!
