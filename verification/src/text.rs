//! Case-sensitive substring containment, used by the entry name filter.

use vstd::prelude::*;
use vstd::string::StrSliceExecFns;

verus! {

/// `needle` occurs in `hay` starting at position `i`.
pub open spec fn spec_matches_at(hay: Seq<char>, needle: Seq<char>, i: int) -> bool {
    0 <= i && i + needle.len() <= hay.len() && hay.subrange(i, i + needle.len()) == needle
}

/// `needle` occurs somewhere in `hay` (simple containment, not a search
/// with any normalization). Opaque so that contracts quantifying over many
/// entries stay cheap; reveal it to see the definition.
#[verifier::opaque]
pub open spec fn spec_contains_substring(hay: Seq<char>, needle: Seq<char>) -> bool {
    exists|i: int| spec_matches_at(hay, needle, i)
}

/// Whether `needle` occurs in `hay` starting exactly at `start`.
fn matches_at(hay: &str, needle: &str, start: usize) -> (r: bool)
    requires
        start + needle@.len() <= hay@.len(),
        hay@.len() <= usize::MAX,
    ensures
        r == spec_matches_at(hay@, needle@, start as int),
{
    let nlen = needle.unicode_len();
    let mut k: usize = 0;
    while k < nlen
        invariant
            k <= nlen,
            nlen == needle@.len(),
            start + nlen <= hay@.len(),
            hay@.len() <= usize::MAX,
            forall|m: int| 0 <= m < k ==> hay@[start + m] == needle@[m],
        decreases nlen - k,
    {
        if hay.get_char(start + k) != needle.get_char(k) {
            assert(!spec_matches_at(hay@, needle@, start as int)) by {
                if hay@.subrange(start as int, start + nlen) == needle@ {
                    assert(hay@.subrange(start as int, start + nlen)[k as int] == hay@[start + k]);
                }
            }
            return false;
        }
        k += 1;
    }
    assert(hay@.subrange(start as int, start + nlen) =~= needle@);
    true
}

/// Whether `hay` contains `needle` as a (case-sensitive) substring.
pub fn contains_substring(hay: &str, needle: &str) -> (r: bool)
    ensures
        r == spec_contains_substring(hay@, needle@),
{
    proof {
        reveal(spec_contains_substring);
    }
    let hlen = hay.unicode_len();
    let nlen = needle.unicode_len();
    if nlen == 0 {
        assert(spec_matches_at(hay@, needle@, 0)) by {
            assert(hay@.subrange(0, 0) =~= needle@);
        }
        return true;
    }
    if nlen > hlen {
        assert(forall|i: int| !spec_matches_at(hay@, needle@, i));
        return false;
    }
    let limit = hlen - nlen;
    let mut start: usize = 0;
    while start <= limit
        invariant
            nlen == needle@.len(),
            hlen == hay@.len(),
            1 <= nlen <= hlen,
            limit == hlen - nlen,
            start <= limit + 1,
            forall|j: int| 0 <= j < start ==> !spec_matches_at(hay@, needle@, j),
        decreases limit + 1 - start,
    {
        if matches_at(hay, needle, start) {
            proof {
                reveal(spec_contains_substring);
            }
            return true;
        }
        start += 1;
    }
    assert(forall|i: int| !spec_matches_at(hay@, needle@, i)) by {
        assert(forall|i: int| i > limit ==> !spec_matches_at(hay@, needle@, i));
    }
    false
}

} // verus!
