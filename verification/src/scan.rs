//! Character scanning over string slices, shared by the token extractor and
//! the file collector.

use vstd::prelude::*;
use vstd::string::*;

verus! {

/// Find the first occurrence of `target` in `hay` at or after `start`.
pub fn find_char(hay: &str, start: usize, target: char) -> (r: Option<usize>)
    requires
        start <= hay@.len(),
        hay@.len() <= usize::MAX,
    ensures
        r matches Some(q) ==> start <= q < hay@.len() && hay@[q as int] == target && (forall|k: int|
            start <= k < q ==> hay@[k] != target),
        r is None ==> forall|k: int| start <= k < hay@.len() ==> hay@[k] != target,
{
    let n = hay.unicode_len();
    let mut q = start;
    while q < n
        invariant
            start <= q <= n,
            n == hay@.len(),
            forall|k: int| start <= k < q ==> hay@[k] != target,
        decreases n - q,
    {
        if hay.get_char(q) == target {
            return Some(q);
        }
        q += 1;
    }
    None
}

/// Whether `pref` occurs in `body` starting at position `i`.
pub fn prefix_matches_at(body: &str, pref: &str, i: usize) -> (r: bool)
    requires
        i + pref@.len() <= body@.len(),
        body@.len() <= usize::MAX,
    ensures
        r == (body@.subrange(i as int, i + pref@.len()) == pref@),
{
    let plen = pref.unicode_len();
    let mut j: usize = 0;
    while j < plen
        invariant
            plen == pref@.len(),
            i + plen <= body@.len() <= usize::MAX,
            j <= plen,
            forall|k: int| 0 <= k < j ==> body@[i + k] == pref@[k],
        decreases plen - j,
    {
        if body.get_char(i + j) != pref.get_char(j) {
            proof {
                assert(body@.subrange(i as int, i + pref@.len())[j as int] != pref@[j as int]);
            }
            return false;
        }
        j += 1;
    }
    proof {
        assert(body@.subrange(i as int, i + pref@.len()) =~= pref@);
    }
    true
}

} // verus!
