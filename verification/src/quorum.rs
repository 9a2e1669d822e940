use vstd::prelude::*;

verus! {

/// A tally is a majority when it is strictly more than half of the fixed
/// participant count (integer division).
pub open spec fn is_majority_spec(count: int, peer_count: int) -> bool {
    count > peer_count / 2
}

/// Majority test over the fixed peer set, `peer_count` counting every
/// participant including the node itself.
pub fn is_majority(count: usize, peer_count: usize) -> (r: bool)
    ensures
        r == is_majority_spec(count as int, peer_count as int),
{
    count > peer_count / 2
}

/// Two majorities of the same participant set must overlap: their sizes sum
/// to more than the whole set, so they cannot be disjoint. This overlap is
/// what lets a later ballot's prepare quorum see any value already accepted
/// by an earlier ballot's accept quorum.
pub proof fn lemma_majority_overlap(c1: int, c2: int, n: int)
    requires
        0 <= c1 <= n,
        0 <= c2 <= n,
        is_majority_spec(c1, n),
        is_majority_spec(c2, n),
    ensures
        c1 + c2 > n,
{
}

/// Two quorums drawn from the same finite participant set always share a
/// member. This is the seed of the agreement argument: a later ballot's
/// prepare quorum must meet the accept quorum of any earlier ballot, so the
/// accepted value is visible to the later proposer.
pub proof fn lemma_quorum_intersection(q1: Set<u64>, q2: Set<u64>, all: Set<u64>)
    requires
        all.finite(),
        q1.subset_of(all),
        q2.subset_of(all),
        is_majority_spec(q1.len() as int, all.len() as int),
        is_majority_spec(q2.len() as int, all.len() as int),
    ensures
        exists|x: u64| q1.contains(x) && q2.contains(x),
{
    vstd::set_lib::lemma_len_subset(q1, all);
    vstd::set_lib::lemma_len_subset(q2, all);
    if !(exists|x: u64| q1.contains(x) && q2.contains(x)) {
        assert(q1.disjoint(q2));
        vstd::set_lib::lemma_set_disjoint_lens(q1, q2);
        assert((q1 + q2).subset_of(all));
        vstd::set_lib::lemma_len_subset(q1 + q2, all);
        lemma_majority_overlap(q1.len() as int, q2.len() as int, all.len() as int);
        assert(false);
    }
}

} // verus!
