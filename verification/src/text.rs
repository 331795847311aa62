//! Character-level helpers for file and status names.

use vstd::prelude::*;

verus! {

/// Character-for-character equality of two string slices.
pub fn str_eq_str(a: &str, b: &str) -> (r: bool)
    ensures
        r == (a@ == b@),
{
    let alen = a.unicode_len();
    let blen = b.unicode_len();
    if alen != blen {
        assert(a@ != b@) by {
            assert(a@.len() != b@.len());
        }
        return false;
    }
    let mut i: usize = 0;
    while i < alen
        invariant
            alen == a@.len(),
            blen == b@.len(),
            alen == blen,
            i <= alen,
            forall|j: int| 0 <= j < i ==> a@[j] == b@[j],
        decreases alen - i,
    {
        if a.get_char(i) != b.get_char(i) {
            return false;
        }
        i += 1;
    }
    proof {
        assert(a@ =~= b@);
    }
    true
}

/// Whether `s` ends with the suffix `suf`.
pub open spec fn spec_has_suffix(s: Seq<char>, suf: Seq<char>) -> bool {
    s.len() >= suf.len() && s.subrange(s.len() - suf.len(), s.len() as int) == suf
}

/// Suffix test over string slices.
pub fn has_suffix(s: &str, suf: &str) -> (r: bool)
    ensures
        r == spec_has_suffix(s@, suf@),
{
    let slen = s.unicode_len();
    let suflen = suf.unicode_len();
    if slen < suflen {
        return false;
    }
    let mut i: usize = 0;
    while i < suflen
        invariant
            slen == s@.len(),
            suflen == suf@.len(),
            suflen <= slen,
            i <= suflen,
            forall|j: int| 0 <= j < i ==> s@[s@.len() - suf@.len() + j] == suf@[j],
        decreases suflen - i,
    {
        if s.get_char(slen - suflen + i) != suf.get_char(i) {
            assert(s@[s@.len() - suf@.len() + i] != suf@[i as int]);
            assert(!spec_has_suffix(s@, suf@)) by {
                if s@.subrange(s@.len() - suf@.len(), s@.len() as int) == suf@ {
                    assert(s@.subrange(s@.len() - suf@.len(), s@.len() as int)[i as int]
                        == suf@[i as int]);
                }
            }
            return false;
        }
        i += 1;
    }
    proof {
        assert(s@.subrange(s@.len() - suf@.len(), s@.len() as int) =~= suf@);
    }
    true
}

/// Whether the sequence of names holds `t`.
pub open spec fn spec_listing_has(listing: Seq<String>, t: Seq<char>) -> bool {
    exists|i: int| 0 <= i < listing.len() && listing[i]@ == t
}

/// Membership of a name in a directory listing.
pub fn listing_has(listing: &Vec<String>, t: &str) -> (r: bool)
    ensures
        r == spec_listing_has(listing@, t@),
{
    let mut i: usize = 0;
    while i < listing.len()
        invariant
            i <= listing@.len(),
            forall|j: int| 0 <= j < i ==> listing@[j]@ != t@,
        decreases listing@.len() - i,
    {
        if str_eq_str(listing[i].as_str(), t) {
            return true;
        }
        i += 1;
    }
    false
}

} // verus!
