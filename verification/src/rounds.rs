//! The round engine: the pre-check / setup / post-check pipeline, the
//! per-round result, and the multi-round driver with its failure budget.

use vstd::prelude::*;
use crate::errors::{ConsensusError, ConsensusFailedError, ConsensusTestError};

verus! {

broadcast use vstd::seq_lib::group_to_multiset_ensures;

/// The states and blocks one node decided in a round.
pub type StateAndBlock<S, B> = (Vec<S>, Vec<B>);

/// Result of running one round of consensus.
#[derive(Debug, Default)]
pub struct RoundResult {
    /// Transactions that were submitted during setup.
    pub txns: Vec<u64>,
    /// Nodes that committed this round, with what they decided, in
    /// node-insertion order.
    pub success_nodes: Vec<(u64, StateAndBlock<u64, u64>)>,
    /// Nodes that failed to commit this round, with the error each
    /// reported, in node-insertion order.
    pub failed_nodes: Vec<(u64, ConsensusError)>,
    /// Whether the round counts as successful: no more nodes failed than
    /// the Byzantine fault bound tolerates.
    pub success: bool,
}

/// Context carried across rounds; the safety-check hooks read and extend it.
#[derive(Debug)]
pub struct RoundCtx {
    /// Results of the rounds run so far, append-only.
    pub prior_round_results: Vec<RoundResult>,
    /// Consecutive rounds with no decision.
    pub views_since_progress: usize,
    /// Cumulative failed-round counter.
    pub total_failed_views: usize,
}

impl Default for RoundCtx {
    /// A fresh context: no prior rounds, no failures.
    fn default() -> (r: RoundCtx)
        ensures
            r.prior_round_results@.len() == 0,
            r.views_since_progress == 0,
            r.total_failed_views == 0,
    {
        RoundCtx { prior_round_results: Vec::new(), views_since_progress: 0, total_failed_views: 0 }
    }
}

/// The pipeline run once per round: a safety check before the round, the
/// round setup (which returns the transactions it submitted), and a safety
/// check on the result afterwards. Implementations are supplied by the
/// harness's caller; nothing is assumed of what they return, and a
/// failure from either check fails the round.
pub trait RoundHooks: Sized {
    /// Safety check before the round is set up and run.
    fn safety_check_pre(&self, ctx: &RoundCtx) -> Result<(), ConsensusFailedError>;

    /// Sets the round up — submitting transactions is the hook's own job —
    /// and reports the transactions it submitted, for the round's record.
    fn setup_round(&self, ctx: &RoundCtx) -> Vec<u64>;

    /// Safety check on the completed round's result.
    fn safety_check_post(&self, ctx: &mut RoundCtx, result: RoundResult) -> Result<(), ConsensusFailedError>;
}

/// The default round pipeline: both checks accept, and the setup submits
/// nothing.
#[derive(Debug, Clone, Copy, PartialEq, Eq, Structural, Default)]
pub struct DefaultRound;

impl RoundHooks for DefaultRound {
    /// Accepts every state.
    fn safety_check_pre(&self, _ctx: &RoundCtx) -> (r: Result<(), ConsensusFailedError>)
        ensures
            r.is_ok(),
    {
        Ok(())
    }

    /// Submits nothing.
    fn setup_round(&self, _ctx: &RoundCtx) -> (r: Vec<u64>)
        ensures
            r@ == Seq::<u64>::empty(),
    {
        Vec::new()
    }

    /// Accepts every outcome and leaves the context alone.
    fn safety_check_post(&self, ctx: &mut RoundCtx, _result: RoundResult) -> (r: Result<(), ConsensusFailedError>)
        ensures
            r.is_ok(),
            *final(ctx) == *old(ctx),
    {
        Ok(())
    }
}

/// The Byzantine fault bound: how many of `n` nodes may fail while the
/// round still counts as successful — `floor((n - 1) / 3)`, and zero for
/// an empty cluster.
pub open spec fn spec_bft_threshold(n: nat) -> nat {
    if n == 0 {
        0
    } else {
        ((n - 1) / 3) as nat
    }
}

/// Computes the Byzantine fault bound `floor((n - 1) / 3)`.
pub fn bft_threshold(n: usize) -> (t: usize)
    ensures
        t == spec_bft_threshold(n as nat),
{
    if n == 0 {
        0
    } else {
        (n - 1) / 3
    }
}

/// The node ids of a list of per-node entries, in order.
pub open spec fn entry_ids<T>(entries: Seq<(u64, T)>) -> Seq<u64> {
    entries.map_values(|p: (u64, T)| p.0)
}

/// The elements of `s` are strictly increasing.
pub open spec fn strictly_increasing(s: Seq<u64>) -> bool {
    forall|t1: int, t2: int| 0 <= t1 < t2 < s.len() ==> #[trigger] s[t1] < #[trigger] s[t2]
}

/// Every element of `s` is at most `bound`.
pub open spec fn all_at_most(s: Seq<u64>, bound: u64) -> bool {
    forall|t: int| 0 <= t < s.len() ==> #[trigger] s[t] <= bound
}

/// How many of the round outcomes are failures.
pub open spec fn count_failures(outcomes: Seq<bool>) -> nat
    decreases outcomes.len(),
{
    if outcomes.len() == 0 {
        0
    } else {
        (if outcomes[0] {
            0nat
        } else {
            1nat
        }) + count_failures(outcomes.skip(1))
    }
}

/// One more outcome extends the failure count by that outcome's failure.
proof fn lemma_count_failures_snoc(outcomes: Seq<bool>, i: int)
    requires
        0 < i <= outcomes.len(),
    ensures
        count_failures(outcomes.take(i)) == count_failures(outcomes.take(i - 1)) + (if outcomes[i - 1] {
            0nat
        } else {
            1nat
        }),
    decreases i,
{
    if i == 1 {
        assert(outcomes.take(0) =~= Seq::<bool>::empty());
        assert(outcomes.take(1)[0] == outcomes[0]);
        assert(outcomes.take(1).skip(1) =~= Seq::<bool>::empty());
    } else {
        lemma_count_failures_snoc(outcomes.skip(1), i - 1);
        assert(outcomes.take(i)[0] == outcomes[0]);
        assert(outcomes.take(i).skip(1) =~= outcomes.skip(1).take(i - 1));
        assert(outcomes.take(i - 1)[0] == outcomes[0]);
        assert(outcomes.take(i - 1).skip(1) =~= outcomes.skip(1).take(i - 2));
        assert(outcomes.skip(1)[i - 2] == outcomes[i - 1]);
    }
}

/// The verdict of a completed run: given each round's outcome (`true` for
/// a successful round) and the failure budget, the run as a whole passes
/// exactly when no more rounds failed than the budget tolerates. This is
/// the counting rule `execute_rounds` applies while it drives live rounds.
pub fn rounds_verdict(round_outcomes: &Vec<bool>, fail_threshold: usize) -> (r: Result<(), ConsensusTestError>)
    ensures
        r.is_ok() <==> count_failures(round_outcomes@) <= fail_threshold,
        r.is_err() ==> r == Err::<(), ConsensusTestError>(ConsensusTestError::TooManyFailures),
{
    let mut num_fails: usize = 0;
    let mut i: usize = 0;
    while i < round_outcomes.len()
        invariant
            i <= round_outcomes@.len(),
            num_fails == count_failures(round_outcomes@.take(i as int)),
            num_fails <= i,
        decreases round_outcomes@.len() - i,
    {
        if !round_outcomes[i] {
            num_fails += 1;
        }
        i += 1;
        proof {
            lemma_count_failures_snoc(round_outcomes@, i as int);
        }
    }
    proof {
        assert(round_outcomes@.take(round_outcomes@.len() as int) =~= round_outcomes@);
    }
    if num_fails <= fail_threshold {
        Ok(())
    } else {
        Err(ConsensusTestError::TooManyFailures)
    }
}

/// With a failure budget of zero, a single failed round already makes the
/// whole run fail: one failure pushes the failure count past zero.
pub proof fn lemma_single_failure_exceeds_zero_budget(outcomes: Seq<bool>, i: int)
    requires
        0 <= i < outcomes.len(),
        !outcomes[i],
    ensures
        count_failures(outcomes) > 0,
    decreases outcomes.len(),
{
    if i > 0 {
        lemma_single_failure_exceeds_zero_budget(outcomes.skip(1), i - 1);
        assert(outcomes.skip(1)[i - 1] == outcomes[i]);
    }
}

} // verus!
