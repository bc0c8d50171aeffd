//! Cross-node agreement checks on decided leaves.
//!
//! Leaves are compared as plain commitments. The harness tolerates a
//! single out-of-sync replica — an honest-but-lagging node — but refuses
//! to accept a broader split.

use vstd::prelude::*;

verus! {

/// How many elements of `s` differ from `v`.
pub open spec fn count_not_equal(s: Seq<u64>, v: u64) -> nat
    decreases s.len(),
{
    if s.len() == 0 {
        0
    } else {
        (if s[0] != v {
            1nat
        } else {
            0nat
        }) + count_not_equal(s.skip(1), v)
    }
}

/// How many elements of `s` equal `v`.
pub open spec fn count_eq(s: Seq<u64>, v: u64) -> nat
    decreases s.len(),
{
    if s.len() == 0 {
        0
    } else {
        (if s[0] == v {
            1nat
        } else {
            0nat
        }) + count_eq(s.skip(1), v)
    }
}

/// How many leaves disagree with the first node's leaf.
pub open spec fn mismatch_count(leaves: Seq<u64>) -> nat
    recommends
        leaves.len() > 0,
{
    count_not_equal(leaves.skip(1), leaves[0])
}

/// No two elements of `s` are equal.
pub open spec fn pairwise_distinct(s: Seq<u64>) -> bool {
    forall|p: int, q: int| 0 <= p < q < s.len() ==> s[p] != s[q]
}

/// The verdict on a cluster's decided leaves.
#[derive(Debug, Clone, Copy, PartialEq, Eq, Structural)]
pub enum StateValidation {
    /// Every node decided the same leaf.
    AllMatch,
    /// Exactly one node disagrees with the first node: accepted with a
    /// warning, as a known liveness quirk of a lagging replica.
    SingleMismatch,
    /// Every other node disagrees with the first node while also
    /// disagreeing pairwise among themselves, so the first node is the
    /// outlier: accepted with a warning.
    FirstNodeOutlier,
    /// A broader split: the cluster must not accept it.
    Diverged,
}

/// The classification rule on a non-empty list of decided leaves, by the
/// number of nodes that disagree with the first node: none — all match;
/// exactly one — a tolerated single mismatch; all of them, with the rest
/// also disagreeing pairwise — the first node is the outlier; anything
/// else is divergence.
pub open spec fn spec_classify(leaves: Seq<u64>) -> StateValidation
    recommends
        leaves.len() > 0,
{
    let m = mismatch_count(leaves);
    if m == 0 {
        StateValidation::AllMatch
    } else if m == 1 {
        StateValidation::SingleMismatch
    } else if m == leaves.len() - 1 && pairwise_distinct(leaves.skip(1)) {
        StateValidation::FirstNodeOutlier
    } else {
        StateValidation::Diverged
    }
}

/// Extending the counted prefix by one element adds that element's
/// disagreement with `v` to the count.
proof fn lemma_count_not_equal_snoc(s: Seq<u64>, v: u64, i: int)
    requires
        0 < i <= s.len(),
    ensures
        count_not_equal(s.take(i), v) == count_not_equal(s.take(i - 1), v) + (if s[i - 1] != v {
            1nat
        } else {
            0nat
        }),
    decreases i,
{
    if i == 1 {
        assert(s.take(0) =~= Seq::<u64>::empty());
        assert(s.take(1)[0] == s[0]);
        assert(s.take(1).skip(1) =~= Seq::<u64>::empty());
    } else {
        lemma_count_not_equal_snoc(s.skip(1), v, i - 1);
        assert(s.take(i)[0] == s[0]);
        assert(s.take(i).skip(1) =~= s.skip(1).take(i - 1));
        assert(s.take(i - 1)[0] == s[0]);
        assert(s.take(i - 1).skip(1) =~= s.skip(1).take(i - 2));
        assert(s.skip(1)[i - 2] == s[i - 1]);
    }
}

/// Extending the counted prefix by one element adds that element's
/// agreement with `v` to the count.
proof fn lemma_count_eq_snoc(s: Seq<u64>, v: u64, i: int)
    requires
        0 < i <= s.len(),
    ensures
        count_eq(s.take(i), v) == count_eq(s.take(i - 1), v) + (if s[i - 1] == v {
            1nat
        } else {
            0nat
        }),
    decreases i,
{
    if i == 1 {
        assert(s.take(0) =~= Seq::<u64>::empty());
        assert(s.take(1)[0] == s[0]);
        assert(s.take(1).skip(1) =~= Seq::<u64>::empty());
    } else {
        lemma_count_eq_snoc(s.skip(1), v, i - 1);
        assert(s.take(i)[0] == s[0]);
        assert(s.take(i).skip(1) =~= s.skip(1).take(i - 1));
        assert(s.take(i - 1)[0] == s[0]);
        assert(s.take(i - 1).skip(1) =~= s.skip(1).take(i - 2));
        assert(s.skip(1)[i - 2] == s[i - 1]);
    }
}

/// Whether the leaves after the first disagree pairwise among themselves.
fn remaining_pairwise_distinct(leaves: &Vec<u64>) -> (r: bool)
    requires
        leaves@.len() >= 1,
    ensures
        r == pairwise_distinct(leaves@.skip(1)),
{
    let mut a: usize = 1;
    while a < leaves.len()
        invariant
            1 <= a,
            a <= leaves@.len() || leaves@.len() < 1,
            forall|p: int, q: int| 1 <= p < q < leaves@.len() && p < a ==> leaves@[p] != leaves@[q],
        decreases leaves@.len() - a,
    {
        let mut b: usize = a + 1;
        while b < leaves.len()
            invariant
                1 <= a < b,
                a < leaves@.len(),
                b <= leaves@.len(),
                forall|q: int| a < q < b ==> leaves@[a as int] != leaves@[q],
            decreases leaves@.len() - b,
        {
            if leaves[a] == leaves[b] {
                proof {
                    assert(leaves@.skip(1)[a - 1] == leaves@[a as int]);
                    assert(leaves@.skip(1)[b - 1] == leaves@[b as int]);
                }
                return false;
            }
            b += 1;
        }
        a += 1;
    }
    proof {
        assert forall|p: int, q: int| 0 <= p < q < leaves@.skip(1).len()
            implies leaves@.skip(1)[p] != leaves@.skip(1)[q] by {
            assert(leaves@.skip(1)[p] == leaves@[p + 1]);
            assert(leaves@.skip(1)[q] == leaves@[q + 1]);
        }
    }
    true
}

/// Classifies a non-empty list of decided leaves against the first node's
/// leaf, per the classification rule: zero mismatches are a full match,
/// one mismatch is tolerated, a first-node outlier is tolerated, and
/// anything broader is divergence, which the caller must treat as fatal.
pub fn classify_leaves(leaves: &Vec<u64>) -> (r: StateValidation)
    requires
        leaves@.len() > 0,
    ensures
        r == spec_classify(leaves@),
{
    let first = leaves[0];
    let mut m: usize = 0;
    let mut i: usize = 1;
    while i < leaves.len()
        invariant
            1 <= i,
            i <= leaves@.len(),
            leaves@.len() > 0,
            first == leaves@[0],
            m == count_not_equal(leaves@.skip(1).take(i - 1), first),
            m <= i - 1,
        decreases leaves@.len() - i,
    {
        if leaves[i] != first {
            m += 1;
        }
        i += 1;
        proof {
            lemma_count_not_equal_snoc(leaves@.skip(1), first, i - 1);
            assert(leaves@.skip(1)[i - 2] == leaves@[i - 1]);
        }
    }
    proof {
        assert(leaves@.skip(1).take(leaves@.skip(1).len() as int) =~= leaves@.skip(1));
    }
    if m == 0 {
        StateValidation::AllMatch
    } else if m == 1 {
        StateValidation::SingleMismatch
    } else if m == leaves.len() - 1 {
        if remaining_pairwise_distinct(leaves) {
            StateValidation::FirstNodeOutlier
        } else {
            StateValidation::Diverged
        }
    } else {
        StateValidation::Diverged
    }
}

/// Counts how many leaves equal `v`.
fn count_occurrences(leaves: &Vec<u64>, v: u64) -> (c: usize)
    ensures
        c == count_eq(leaves@, v),
{
    let mut c: usize = 0;
    let mut i: usize = 0;
    while i < leaves.len()
        invariant
            i <= leaves@.len(),
            c == count_eq(leaves@.take(i as int), v),
            c <= i,
        decreases leaves@.len() - i,
    {
        if leaves[i] == v {
            c += 1;
        }
        i += 1;
        proof {
            lemma_count_eq_snoc(leaves@, v, i as int);
        }
    }
    proof {
        assert(leaves@.take(leaves@.len() as int) =~= leaves@);
    }
    c
}

/// What a round-check asks of the cluster: whether to compare decided
/// leaves at all, and how many nodes may lag behind the collective
/// decision.
#[derive(Debug, Clone, Copy, PartialEq, Eq, Structural)]
pub struct RoundCheckDescription {
    /// Whether the decided leaves are compared.
    pub check_leaf: bool,
    /// How many nodes may be out of sync with the collective decision.
    pub num_out_of_sync: usize,
}

/// No leaf in `leaves` is held by at least `leaves.len() - num_out_of_sync`
/// nodes: the cluster has no collective decision at that quorum.
pub open spec fn no_collective_leaf(leaves: Seq<u64>, num_out_of_sync: usize) -> bool {
    forall|i: int|
        0 <= i < leaves.len() ==> count_eq(leaves, #[trigger] leaves[i]) < leaves.len() - num_out_of_sync
}

/// Finds a leaf held by at least `leaves.len() - num_out_of_sync` nodes —
/// the collective decision — if any leaf is; otherwise reports that no
/// leaf reaches that quorum.
pub fn collective_leaf(leaves: &Vec<u64>, num_out_of_sync: usize) -> (r: Option<u64>)
    requires
        num_out_of_sync <= leaves@.len(),
    ensures
        (match r {
            Some(l) => leaves@.contains(l) && count_eq(leaves@, l) >= leaves@.len() - num_out_of_sync,
            None => no_collective_leaf(leaves@, num_out_of_sync),
        }),
{
    let quorum = leaves.len() - num_out_of_sync;
    let mut i: usize = 0;
    while i < leaves.len()
        invariant
            i <= leaves@.len(),
            quorum == leaves@.len() - num_out_of_sync,
            forall|t: int| 0 <= t < i ==> count_eq(leaves@, #[trigger] leaves@[t]) < quorum,
        decreases leaves@.len() - i,
    {
        let candidate = leaves[i];
        let c = count_occurrences(leaves, candidate);
        if c >= quorum {
            proof {
                assert(leaves@[i as int] == candidate);
            }
            return Some(candidate);
        }
        i += 1;
    }
    None
}

} // verus!
