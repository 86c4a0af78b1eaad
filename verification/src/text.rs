//! Case-sensitive exact substring matching, used by the flight search.

use vstd::prelude::*;
use crate::entities::Flight;

verus! {

/// `needle` occurs in `hay` starting at position `i`.
pub open spec fn matches_at(hay: Seq<char>, needle: Seq<char>, i: int) -> bool {
    &&& 0 <= i
    &&& i + needle.len() <= hay.len()
    &&& hay.subrange(i, i + needle.len()) == needle
}

/// `needle` occurs somewhere in `hay`. The empty needle occurs in every
/// string.
pub open spec fn is_substring(hay: Seq<char>, needle: Seq<char>) -> bool {
    exists|i: int| matches_at(hay, needle, i)
}

/// The search criteria match a flight when the criteria string occurs in any
/// of its four text fields: airline, flight number, origin or destination.
pub open spec fn flight_matches(f: Flight, criteria: Seq<char>) -> bool {
    ||| is_substring(f.airline@, criteria)
    ||| is_substring(f.flight_number@, criteria)
    ||| is_substring(f.origin@, criteria)
    ||| is_substring(f.destination@, criteria)
}

/// Whether `needle` occurs at position `start` of `hay`.
#[verifier::loop_isolation(false)]
fn matches_at_exec(hay: &str, needle: &str, start: usize, hay_len: usize, needle_len: usize) -> (r:
    bool)
    requires
        hay_len == hay@.len(),
        needle_len == needle@.len(),
        start + needle_len <= hay_len,
    ensures
        r == matches_at(hay@, needle@, start as int),
{
    let mut j: usize = 0;
    while j < needle_len
        invariant
            0 <= j <= needle_len,
            forall|t: int| 0 <= t < j ==> hay@[start + t] == needle@[t],
        decreases needle_len - j,
    {
        if hay.get_char(start + j) != needle.get_char(j) {
            proof {
                if matches_at(hay@, needle@, start as int) {
                    assert(hay@.subrange(start as int, start + needle@.len() as int)[j as int]
                        == needle@[j as int]);
                }
            }
            return false;
        }
        j = j + 1;
    }
    proof {
        assert(hay@.subrange(start as int, start + needle@.len() as int) =~= needle@);
    }
    true
}

/// Whether `needle` occurs anywhere in `hay` (case-sensitive, exact).
#[verifier::loop_isolation(false)]
pub fn contains_substring(hay: &str, needle: &str) -> (r: bool)
    ensures
        r == is_substring(hay@, needle@),
{
    let hay_len = hay.unicode_len();
    let needle_len = needle.unicode_len();
    if needle_len > hay_len {
        return false;
    }
    let mut start: usize = 0;
    while start <= hay_len - needle_len
        invariant
            0 <= start <= hay_len - needle_len + 1,
            forall|i: int| 0 <= i < start ==> !matches_at(hay@, needle@, i),
        decreases hay_len - needle_len + 1 - start,
    {
        if matches_at_exec(hay, needle, start, hay_len, needle_len) {
            return true;
        }
        proof {
            if needle_len == 0 {
                assert(hay@.subrange(start as int, start as int) =~= needle@);
                assert(false);
            }
        }
        start = start + 1;
    }
    proof {
        assert forall|i: int| !matches_at(hay@, needle@, i) by {
            if 0 <= i && i + needle@.len() <= hay@.len() {
                assert(i < start);
                assert(!matches_at(hay@, needle@, i));
            }
        }
    }
    false
}

/// Whether the flight matches the search criteria, checked field by field.
pub fn flight_matches_exec(f: &Flight, criteria: &str) -> (r: bool)
    ensures
        r == flight_matches(*f, criteria@),
{
    contains_substring(f.airline.as_str(), criteria) || contains_substring(
        f.flight_number.as_str(),
        criteria,
    ) || contains_substring(f.origin.as_str(), criteria) || contains_substring(
        f.destination.as_str(),
        criteria,
    )
}

} // verus!
