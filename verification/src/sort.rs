pub mod checked;
pub mod comb;
pub mod unchecked;

use vstd::prelude::*;

verus! {

/// A buffer is sorted when every pair of positions is ordered, not just
/// adjacent ones; the two-variable form is what bisection and the sort
/// proofs instantiate.
pub open spec fn sorted(s: Seq<i32>) -> bool {
    forall|i: int, j: int| 0 <= i <= j < s.len() ==> s[i] <= s[j]
}

/// Exchanging the elements at two positions leaves the multiset of
/// elements unchanged.
pub proof fn lemma_swap_preserves_multiset(s: Seq<i32>, i: int, j: int)
    requires
        0 <= i < s.len(),
        0 <= j < s.len(),
    ensures
        s.update(i, s[j]).update(j, s[i]).to_multiset() == s.to_multiset(),
{
    broadcast use vstd::seq_lib::group_to_multiset_ensures;
    broadcast use vstd::seq_lib::to_multiset_update;
    broadcast use vstd::multiset::group_multiset_axioms;
    broadcast use vstd::multiset::group_multiset_properties;

    assert(s.to_multiset().count(s[i]) > 0) by {
        assert(s.contains(s[i]));
    }
    assert(s.to_multiset().count(s[j]) > 0) by {
        assert(s.contains(s[j]));
    }
    let s1 = s.update(i, s[j]);
    assert(s1[j] == s[j]);
    assert(s1.to_multiset() == s.to_multiset().insert(s[j]).remove(s[i]));
    assert(s1.update(j, s[i]).to_multiset() == s1.to_multiset().insert(s[i]).remove(s1[j]));
    assert(s.update(i, s[j]).update(j, s[i]).to_multiset() =~= s.to_multiset());
}

/// Exchanging two positions inside the prefix `[0, size)` keeps the
/// prefix's multiset of elements and leaves the rest of the buffer as it
/// was.
pub proof fn lemma_swap_in_prefix(before: Seq<i32>, after: Seq<i32>, size: int, i: int, j: int)
    requires
        0 <= i < size <= before.len(),
        0 <= j < size,
        after == before.update(i, before[j]).update(j, before[i]),
    ensures
        after.len() == before.len(),
        after.subrange(0, size).to_multiset() == before.subrange(0, size).to_multiset(),
        after.subrange(size, after.len() as int) == before.subrange(size, before.len() as int),
{
    let pre = before.subrange(0, size);
    assert(after.subrange(0, size) =~= pre.update(i, pre[j]).update(j, pre[i]));
    lemma_swap_preserves_multiset(pre, i, j);
    assert(after.subrange(size, after.len() as int) =~= before.subrange(
        size,
        before.len() as int,
    ));
}

/// The two implementation classes of a sort kernel cannot disagree on
/// valid input: a sorted buffer holding a given multiset of elements is
/// unique, so any two results that are sorted permutations of the same
/// input are equal element for element.
pub proof fn lemma_sorted_permutation_unique(a: Seq<i32>, b: Seq<i32>)
    requires
        sorted(a),
        sorted(b),
        a.to_multiset() == b.to_multiset(),
    ensures
        a == b,
{
    let leq = |x: i32, y: i32| x <= y;
    assert(vstd::relations::sorted_by(a, leq));
    assert(vstd::relations::sorted_by(b, leq));
    assert(vstd::relations::total_ordering(leq));
    vstd::seq_lib::lemma_sorted_unique(a, b, leq);
    assert(a =~= b);
}

} // verus!
