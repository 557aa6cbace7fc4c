use vstd::prelude::*;

verus! {

/// What `str::to_lowercase` returns for a given string, taken as UTF-8
/// bytes. The Unicode case mapping is far too large to state here, so
/// callers reason through this name alone.
pub uninterp spec fn lower_bytes(s: Seq<char>) -> Seq<u8>;

/// Relies on `str::to_lowercase`: the lowercase equivalent of a string
/// depends on its characters alone, and an empty string stays empty.
#[verifier::external_body]
pub(crate) fn lowercase_bytes(s: &str) -> (r: Vec<u8>)
    ensures
        r@ == lower_bytes(s@),
        s@.len() == 0 ==> r@.len() == 0,
{
    s.to_lowercase().into_bytes()
}

/// `needle` occurs contiguously inside `haystack` (an empty needle always does).
pub open spec fn is_substring_of(needle: Seq<u8>, haystack: Seq<u8>) -> bool {
    exists|k: int| matches_at(needle, haystack, k)
}

/// `needle` matches `haystack` at position `k`.
pub open spec fn matches_at(needle: Seq<u8>, haystack: Seq<u8>, k: int) -> bool {
    &&& 0 <= k
    &&& k + needle.len() <= haystack.len()
    &&& haystack.subrange(k, k + needle.len()) =~= needle
}

fn bytes_match_at(haystack: &Vec<u8>, needle: &Vec<u8>, k: usize) -> (r: bool)
    requires
        k + needle@.len() <= haystack@.len(),
        haystack@.len() <= usize::MAX,
    ensures
        r == matches_at(needle@, haystack@, k as int),
{
    let mut j: usize = 0;
    while j < needle.len()
        invariant
            j <= needle@.len(),
            k + needle@.len() <= haystack@.len(),
            haystack@.len() <= usize::MAX,
            forall|m: int| 0 <= m < j ==> haystack@[k + m] == needle@[m],
        decreases needle@.len() - j,
    {
        if haystack[k + j] != needle[j] {
            assert(haystack@.subrange(k as int, k + needle@.len())[j as int] != needle@[j as int]);
            return false;
        }
        j = j + 1;
    }
    assert(haystack@.subrange(k as int, k + needle@.len()) =~= needle@);
    true
}

/// Naive substring search over byte vectors.
pub fn contains_bytes(haystack: &Vec<u8>, needle: &Vec<u8>) -> (r: bool)
    ensures
        r == is_substring_of(needle@, haystack@),
{
    if needle.len() > haystack.len() {
        return false;
    }
    if needle.len() == 0 {
        assert(matches_at(needle@, haystack@, 0));
        return true;
    }
    let last = haystack.len() - needle.len();
    let mut k: usize = 0;
    loop
        invariant
            k <= last + 1,
            last == haystack@.len() - needle@.len(),
            1 <= needle@.len(),
            haystack@.len() <= usize::MAX,
            forall|m: int| 0 <= m < k ==> !matches_at(needle@, haystack@, m),
        decreases last + 1 - k,
    {
        if k > last {
            assert(!is_substring_of(needle@, haystack@)) by {
                assert(forall|m: int|
                    0 <= m <= haystack@.len() - needle@.len() ==> !matches_at(
                        needle@,
                        haystack@,
                        m,
                    ));
            };
            return false;
        }
        if bytes_match_at(haystack, needle, k) {
            assert(matches_at(needle@, haystack@, k as int));
            return true;
        }
        k = k + 1;
    }
}

} // verus!
