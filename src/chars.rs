//! Conversions between strings and character vectors.
use itertools::Itertools;
use vstd::prelude::*;

verus! {

/// Relies on `str::chars` and itertools' `Itertools::collect_vec`: the
/// characters of `s`, in order.
#[verifier::external_body]
pub(crate) fn chars_of(s: &str) -> (r: Vec<char>)
    ensures
        r@ == s@,
{
    s.chars().collect_vec()
}

/// Relies on `FromIterator<&char> for String` (through `Iterator::collect`):
/// the string made of the characters `c[lo..hi]`, in order.
#[verifier::external_body]
pub(crate) fn string_from_chars(c: &[char], lo: usize, hi: usize) -> (r: String)
    requires
        lo <= hi <= c@.len(),
    ensures
        r@ == c@.subrange(lo as int, hi as int),
{
    c[lo..hi].iter().collect::<String>()
}

} // verus!
