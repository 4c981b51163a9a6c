//! Small text helpers shared by the engine.

use vstd::prelude::*;

verus! {

use vstd::std_specs::iter::IteratorSpec;
use vstd::string::StrSliceExecFns;

/// Splits a string at a character index (not a byte index): the first part
/// holds the first `mid` characters, or all of them if the string is
/// shorter, and the second part holds the rest.
pub fn split_by_char<'a>(string: &'a str, mid: usize) -> (r: (&'a str, &'a str))
    ensures
        r.0@ == string@.take(spec_min_usize(mid, string@.len() as usize) as int),
        r.1@ == string@.skip(spec_min_usize(mid, string@.len() as usize) as int),
{
    let n = string.unicode_len();
    let m = if mid < n {
        mid
    } else {
        n
    };
    let first = string.substring_char(0, m);
    let second = string.substring_char(m, n);
    assert(first@ == string@.take(m as int));
    assert(second@ == string@.skip(m as int));
    (first, second)
}

/// The smaller of two lengths.
pub open spec fn spec_min_usize(a: usize, b: usize) -> usize {
    if a < b {
        a
    } else {
        b
    }
}

/// Collects the characters of a string slice into a vector.
pub fn str_to_chars(s: &str) -> (r: Vec<char>)
    ensures
        r@ == s@,
{
    broadcast use vstd::string::next_postcondition;
    broadcast use vstd::string::axiom_spec_iter;

    let mut it = s.chars();
    let mut r: Vec<char> = Vec::new();
    proof {
        assert(r@ + it.remaining() =~= s@);
    }
    loop
        invariant
            it.obeys_prophetic_iter_laws(),
            it.decrease() is Some,
            r@ + it.remaining() == s@,
        ensures
            r@ == s@,
        decreases it.decrease()->0,
    {
        let ghost pre = r@;
        let ghost rem = it.remaining();
        match it.next() {
            Some(c) => {
                r.push(c);
                proof {
                    assert(rem.len() > 0);
                    assert(r@ + it.remaining() =~= pre + rem);
                }
            },
            None => {
                proof {
                    assert(rem.len() == 0);
                    assert(r@ =~= s@);
                }
                break;
            },
        }
    }
    r
}

/// Relies on String's character collection (`FromIterator<char>`): the
/// collected string holds exactly the characters handed to it, in order.
#[verifier::external_body]
pub fn chars_to_string(cs: &Vec<char>) -> (r: String)
    ensures
        r@ == cs@,
{
    cs.iter().collect()
}

} // verus!
