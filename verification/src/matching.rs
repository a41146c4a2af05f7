//! The match predicate: a candidate's public identifier counts as a match
//! exactly when it ends with the target pattern, case-sensitively and with
//! no wildcards.

use vstd::prelude::*;
use vstd::string::StrSliceExecFns;

verus! {

/// Whether `suffix` is the exact tail of `s`.
pub open spec fn is_suffix_of(suffix: Seq<char>, s: Seq<char>) -> bool {
    suffix.len() <= s.len() && s.subrange(s.len() - suffix.len(), s.len() as int) == suffix
}

/// Decides whether a public identifier satisfies the target criterion:
/// true exactly when its trailing characters equal the target suffix.
pub fn matches_target(public_id: &str, target_suffix: &str) -> (r: bool)
    ensures
        r == is_suffix_of(target_suffix@, public_id@),
{
    let n = public_id.unicode_len();
    let m = target_suffix.unicode_len();
    if m > n {
        return false;
    }
    let mut i: usize = 0;
    while i < m
        invariant
            n == public_id@.len(),
            m == target_suffix@.len(),
            m <= n,
            i <= m,
            forall|j: int| 0 <= j < i ==> public_id@[n - m + j] == target_suffix@[j],
        decreases m - i,
    {
        let c1 = public_id.get_char(n - m + i);
        let c2 = target_suffix.get_char(i);
        if c1 != c2 {
            proof {
                assert(public_id@.subrange(n - m, n as int)[i as int] != target_suffix@[i as int]);
            }
            return false;
        }
        i = i + 1;
    }
    proof {
        assert(public_id@.subrange(n - m, n as int) =~= target_suffix@);
    }
    true
}

} // verus!
