use vstd::prelude::*;

use crate::stats::sum_of;

verus! {

/// A sample is plausible when it lies inside the inclusive fence `[lo, hi]`.
pub open spec fn in_fence(x: u16, lo: u16, hi: u16) -> bool {
    lo <= x <= hi
}

/// The series `s` with every sample outside the fence replaced by `fill`,
/// order and length kept.
pub open spec fn sanitized(s: Seq<u16>, lo: u16, hi: u16, fill: u16) -> Seq<u16> {
    s.map_values(|x: u16| if x < lo || x > hi { fill } else { x })
}

/// Replaces every sample of `v` outside `[lo, hi]` with `fill`, in place.
pub fn sanitize(v: &mut Vec<u16>, lo: u16, hi: u16, fill: u16)
    ensures
        final(v)@ == sanitized(old(v)@, lo, hi, fill),
{
    let n = v.len();
    let mut i: usize = 0;
    while i < n
        invariant
            i <= n,
            v@.len() == n,
            old(v)@.len() == n,
            forall|j: int| 0 <= j < i ==> v@[j] == sanitized(old(v)@, lo, hi, fill)[j],
            forall|j: int| i <= j < n ==> v@[j] == old(v)@[j],
        decreases n - i,
    {
        let x = v[i];
        if x < lo || x > hi {
            v.set(i, fill);
        }
        i = i + 1;
    }
    proof {
        assert(v@ =~= sanitized(old(v)@, lo, hi, fill));
    }
}

/// Sanitizing an array whose samples all lie inside the fence leaves it
/// unchanged, so running the pass a second time returns the same array again.
pub proof fn lemma_sanitize_in_range_idempotent(s: Seq<u16>, lo: u16, hi: u16, fill: u16)
    requires
        forall|i: int| 0 <= i < s.len() ==> in_fence(#[trigger] s[i], lo, hi),
    ensures
        sanitized(s, lo, hi, fill) == s,
        sanitized(sanitized(s, lo, hi, fill), lo, hi, fill) == s,
{
    assert(sanitized(s, lo, hi, fill) =~= s);
}

/// With exactly one sample outside the fence, sanitizing with the truncated
/// mean of the raw series replaces only that sample, and the replacement is
/// that mean.
pub proof fn lemma_sanitize_single_outlier(s: Seq<u16>, lo: u16, hi: u16, fill: u16, k: int)
    requires
        0 <= k < s.len(),
        !in_fence(s[k], lo, hi),
        forall|j: int| 0 <= j < s.len() && j != k ==> in_fence(#[trigger] s[j], lo, hi),
        fill as int == sum_of(s) / s.len() as int,
    ensures
        sanitized(s, lo, hi, fill) == s.update(k, fill),
        sanitized(s, lo, hi, fill)[k] as int == sum_of(s) / s.len() as int,
{
    assert(sanitized(s, lo, hi, fill) =~= s.update(k, fill));
}

} // verus!
