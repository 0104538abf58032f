//! Sorting the slot sequence.
//!
//! After a bid mutates slot values, the slots are re-sorted ascending by
//! bid value. The bid values and the ownership tokens live in two vectors
//! paired index by index, so the sort permutes both in lockstep: the
//! multiset of value–token pairs is exactly preserved.

use vstd::prelude::*;
use crate::content::sorted_vals;

verus! {

/// The slot sequence as value–token pairs, index by index.
pub open spec fn pairs(vals: Seq<u64>, toks: Seq<u64>) -> Seq<(u64, u64)> {
    Seq::new(vals.len(), |i: int| (vals[i], toks[i]))
}

/// Swapping two adjacent positions of a sequence leaves its multiset of
/// elements unchanged.
proof fn lemma_swap_preserves_multiset<A>(s: Seq<A>, j: int)
    requires
        0 <= j,
        j + 1 < s.len(),
    ensures
        s.update(j, s[j + 1]).update(j + 1, s[j]).to_multiset() =~= s.to_multiset(),
{
    broadcast use vstd::seq_lib::to_multiset_update;
    broadcast use vstd::seq_lib::group_to_multiset_ensures;
    broadcast use vstd::multiset::group_multiset_axioms;

    let a = s[j];
    let b = s[j + 1];
    let s1 = s.update(j, b);
    let s2 = s1.update(j + 1, a);
    assert(s.contains(a) && s.contains(b));
    assert(s1.to_multiset() == s.to_multiset().insert(b).remove(a));
    assert(s1[j + 1] == b);
    assert(s2.to_multiset() == s1.to_multiset().insert(a).remove(b));
}

/// Sorts the bid values ascending, permuting the paired ownership tokens
/// identically, so that every value keeps the token it was paired with.
#[allow(non_snake_case)]
pub fn sortBidding(arr1: &mut Vec<u64>, arr2: &mut Vec<u64>)
    requires
        old(arr1)@.len() == old(arr2)@.len(),
    ensures
        final(arr1)@.len() == old(arr1)@.len(),
        final(arr2)@.len() == old(arr2)@.len(),
        sorted_vals(final(arr1)@),
        pairs(final(arr1)@, final(arr2)@).to_multiset() == pairs(old(arr1)@, old(arr2)@)
            .to_multiset(),
        final(arr1)@.to_multiset() == old(arr1)@.to_multiset(),
{
    let n = arr1.len();
    if n == 0 {
        return;
    }
    let mut i: usize = 0;
    while i < n
        invariant
            0 < n == arr1@.len() == arr2@.len(),
            0 <= i <= n,
            pairs(arr1@, arr2@).to_multiset() == pairs(old(arr1)@, old(arr2)@).to_multiset(),
            arr1@.to_multiset() == old(arr1)@.to_multiset(),
            forall|p: int, q: int|
                0 <= p <= q < n && n - i <= q ==> arr1@[p] <= arr1@[q],
        decreases n - i,
    {
        let mut j: usize = 0;
        while j < n - 1 - i
            invariant
                0 < n == arr1@.len() == arr2@.len(),
                0 <= i < n,
                0 <= j <= n - 1 - i,
                pairs(arr1@, arr2@).to_multiset() == pairs(old(arr1)@, old(arr2)@)
                    .to_multiset(),
                arr1@.to_multiset() == old(arr1)@.to_multiset(),
                forall|p: int, q: int|
                    0 <= p <= q < n && n - i <= q ==> arr1@[p] <= arr1@[q],
                forall|p: int| 0 <= p < j ==> arr1@[p] <= arr1@[j as int],
            decreases n - 1 - i - j,
        {
            if arr1[j] > arr1[j + 1] {
                let ghost vals0 = arr1@;
                let ghost toks0 = arr2@;
                let a = arr1[j];
                let b = arr1[j + 1];
                arr1[j] = b;
                arr1[j + 1] = a;
                let ta = arr2[j];
                let tb = arr2[j + 1];
                arr2[j] = tb;
                arr2[j + 1] = ta;
                proof {
                    lemma_swap_preserves_multiset(vals0, j as int);
                    assert(arr1@ =~= vals0.update(j as int, vals0[j + 1]).update(
                        j + 1,
                        vals0[j as int],
                    ));
                    lemma_swap_preserves_multiset(pairs(vals0, toks0), j as int);
                    assert(pairs(arr1@, arr2@) =~= pairs(vals0, toks0).update(
                        j as int,
                        pairs(vals0, toks0)[j + 1],
                    ).update(j + 1, pairs(vals0, toks0)[j as int]));
                }
            }
            j = j + 1;
        }
        i = i + 1;
    }
}

} // verus!
