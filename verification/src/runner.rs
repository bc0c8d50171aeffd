//! The test runner: owns one consensus handle per replica, allocates node
//! ids, and spins nodes up and down.
//!
//! The consensus protocol itself is an outside collaborator. The runner
//! reaches it through [`ConsensusHandle`], and builds new replicas through
//! [`NodeGenerator`]; both are implemented outside the library (by the real
//! consensus bindings, or by stubs in tests), and nothing is assumed of
//! what their methods return. Everything the runner itself decides — id
//! allocation, lookup, removal, the shape of the node list — is verified.

use vstd::prelude::*;
use crate::errors::{ConsensusError, ConsensusFailedError};
use crate::rounds::{bft_threshold, entry_ids, spec_bft_threshold, RoundCtx, RoundHooks, RoundResult, StateAndBlock};
use crate::errors::ConsensusTestError;
use crate::validate::{classify_leaves, collective_leaf, RoundCheckDescription, StateValidation};

verus! {

broadcast use vstd::seq_lib::group_to_multiset_ensures;

/// The contract surface of one replica's consensus handle, as the harness
/// consumes it: trigger a round, collect its outcome, read the decided
/// leaf, submit a transaction, shut down. Leaves, state commitments,
/// deltas and transactions are carried as plain numbers; the harness never
/// looks inside them. No behaviour is assumed of an implementation: every
/// contract of the runner holds whatever these methods return.
pub trait ConsensusHandle: Sized {
    /// Fire-and-forget trigger for one round of consensus.
    fn start_one_round(&self);

    /// Waits for the round to finish on this replica: the decided state
    /// commitments and deltas, or the error the replica reports.
    fn collect_round_events(&self) -> Result<StateAndBlock<u64, u64>, ConsensusError>;

    /// The latest committed leaf of this replica.
    fn get_decided_leaf(&self) -> u64;

    /// Submits a transaction to this replica.
    fn submit_transaction(&self, txn: u64) -> Result<(), ConsensusError>;

    /// Shuts the replica down; idempotent on the consensus side.
    fn shut_down(&self);

    /// Manufactures a fresh random transaction against the given decided
    /// leaf.
    fn create_random_transaction(&self, leaf: u64) -> u64;
}

/// Builds the replica for a fresh node id: networks, storage, config and
/// the consensus initializer all live behind this one step, which the
/// harness's caller supplies.
pub trait NodeGenerator<H: ConsensusHandle>: Sized {
    /// Constructs the consensus handle for the node with this id.
    fn generate(&mut self, node_id: u64) -> H;
}

pub(crate) struct Node<H> {
    pub(crate) node_id: u64,
    pub(crate) handle: H,
}

/// The runner of a test network: spins nodes up and down and executes
/// rounds of consensus against them.
pub struct TestRunner<H: ConsensusHandle, G: NodeGenerator<H>, R: RoundHooks> {
    pub(crate) generator: G,
    pub(crate) nodes: Vec<Node<H>>,
    pub(crate) next_node_id: u64,
    pub(crate) round: R,
}

impl<H: ConsensusHandle, G: NodeGenerator<H>, R: RoundHooks> TestRunner<H, G, R> {
    /// The node ids currently held, in insertion order.
    pub closed spec fn node_ids(&self) -> Seq<u64> {
        self.nodes@.map_values(|n: Node<H>| n.node_id)
    }

    /// The consensus handles currently held, in insertion order.
    pub closed spec fn spec_handles(&self) -> Seq<H> {
        self.nodes@.map_values(|n: Node<H>| n.handle)
    }

    /// The id the next added node will get.
    pub closed spec fn spec_next_node_id(&self) -> u64 {
        self.next_node_id
    }

    /// The active round pipeline.
    pub closed spec fn spec_round(&self) -> R {
        self.round
    }

    /// Well-formedness: node ids are strictly increasing (so unique), and
    /// every one of them is below the next id to be allocated. Ids are
    /// never reused, even after a shutdown.
    pub closed spec fn wf(&self) -> bool {
        &&& forall|i: int| 0 <= i < self.node_ids().len() ==> #[trigger] self.node_ids()[i] < self.next_node_id
        &&& forall|i: int, j: int|
            0 <= i < j < self.node_ids().len() ==> #[trigger] self.node_ids()[i] < #[trigger] self.node_ids()[j]
    }

    /// Creates a runner with no nodes, ids starting at zero.
    pub fn new(generator: G, round: R) -> (r: TestRunner<H, G, R>)
        ensures
            r.node_ids() == Seq::<u64>::empty(),
            r.spec_handles() == Seq::<H>::empty(),
            r.spec_next_node_id() == 0,
            r.spec_round() == round,
            r.wf(),
    {
        let r = TestRunner { generator, nodes: Vec::new(), next_node_id: 0, round };
        proof {
            assert(r.node_ids() =~= Seq::<u64>::empty());
            assert(r.spec_handles() =~= Seq::<H>::empty());
        }
        r
    }

    /// Replaces the round pipeline.
    pub fn with_round(&mut self, round: R)
        ensures
            final(self).spec_round() == round,
            final(self).node_ids() == old(self).node_ids(),
            final(self).spec_handles() == old(self).spec_handles(),
            final(self).spec_next_node_id() == old(self).spec_next_node_id(),
            old(self).wf() ==> final(self).wf(),
    {
        self.round = round;
    }

    /// The next node id that `add_node_with_config` would use.
    pub fn next_node_id(&self) -> (r: u64)
        ensures
            r == self.spec_next_node_id(),
    {
        self.next_node_id
    }

    /// Stores a freshly constructed replica under a newly allocated node
    /// id and returns that id. The replica itself — networks, storage,
    /// key pair, exchanges, consensus initializer — is built outside and
    /// handed in as its consensus handle.
    pub fn add_node_with_config(&mut self, handle: H) -> (r: u64)
        requires
            old(self).spec_next_node_id() < u64::MAX,
        ensures
            r == old(self).spec_next_node_id(),
            final(self).spec_next_node_id() == old(self).spec_next_node_id() + 1,
            final(self).node_ids() == old(self).node_ids().push(old(self).spec_next_node_id()),
            final(self).spec_handles() == old(self).spec_handles().push(handle),
            final(self).spec_round() == old(self).spec_round(),
            old(self).wf() ==> final(self).wf(),
    {
        let node_id = self.next_node_id;
        self.next_node_id = self.next_node_id + 1;
        self.nodes.push(Node { node_id, handle });
        proof {
            assert(self.node_ids() =~= old(self).node_ids().push(node_id));
            assert(self.spec_handles() =~= old(self).spec_handles().push(self.nodes@.last().handle));
        }
        node_id
    }

    /// Adds `count` nodes, each built by the generator for its fresh id,
    /// and returns the allocated ids, which are consecutive starting at
    /// the previous next id.
    pub fn add_nodes(&mut self, count: usize) -> (r: Vec<u64>)
        requires
            old(self).spec_next_node_id() + count < u64::MAX,
        ensures
            r@.len() == count,
            forall|t: int| 0 <= t < count ==> r@[t] == old(self).spec_next_node_id() + t,
            final(self).node_ids() == old(self).node_ids() + r@,
            final(self).spec_handles().len() == old(self).spec_handles().len() + count,
            final(self).spec_handles().take(old(self).spec_handles().len() as int) == old(self).spec_handles(),
            final(self).spec_next_node_id() == old(self).spec_next_node_id() + count,
            final(self).spec_round() == old(self).spec_round(),
            old(self).wf() ==> final(self).wf(),
    {
        let mut results: Vec<u64> = Vec::new();
        proof {
            assert(self.spec_handles().take(self.spec_handles().len() as int) =~= self.spec_handles());
        }
        let mut i: usize = 0;
        while i < count
            invariant
                i <= count,
                old(self).spec_next_node_id() + count < u64::MAX,
                self.spec_next_node_id() == old(self).spec_next_node_id() + i,
                results@.len() == i,
                forall|t: int| 0 <= t < i ==> results@[t] == old(self).spec_next_node_id() + t,
                self.node_ids() == old(self).node_ids() + results@,
                self.spec_handles().len() == old(self).spec_handles().len() + i,
                self.spec_handles().take(old(self).spec_handles().len() as int) == old(self).spec_handles(),
                self.spec_round() == old(self).spec_round(),
                old(self).wf() ==> self.wf(),
            decreases count - i,
        {
            let node_id = self.next_node_id;
            let handle = self.generator.generate(node_id);
            let ghost handles_before = self.spec_handles();
            let allocated = self.add_node_with_config(handle);
            results.push(allocated);
            i += 1;
            proof {
                assert(self.node_ids() =~= old(self).node_ids() + results@);
                assert(self.spec_handles().take(old(self).spec_handles().len() as int)
                    =~= handles_before.take(old(self).spec_handles().len() as int));
            }
        }
        results
    }

    /// The current node ids, in insertion order.
    pub fn ids(&self) -> (r: Vec<u64>)
        ensures
            r@ == self.node_ids(),
    {
        let mut r: Vec<u64> = Vec::new();
        let mut i: usize = 0;
        while i < self.nodes.len()
            invariant
                i <= self.nodes@.len(),
                self.node_ids().len() == self.nodes@.len(),
                r@ == self.node_ids().take(i as int),
            decreases self.nodes@.len() - i,
        {
            r.push(self.nodes[i].node_id);
            i += 1;
            proof {
                assert(self.node_ids().take(i as int) =~= self.node_ids().take(i - 1).push(self.node_ids()[i - 1]));
            }
        }
        proof {
            assert(self.node_ids().take(self.node_ids().len() as int) =~= self.node_ids());
        }
        r
    }

    /// The consensus handles held by this runner, in insertion order.
    pub fn nodes(&self) -> (r: Vec<&H>)
        ensures
            r@.len() == self.spec_handles().len(),
            forall|t: int| 0 <= t < r@.len() ==> *(#[trigger] r@[t]) == self.spec_handles()[t],
    {
        let mut r: Vec<&H> = Vec::new();
        let mut i: usize = 0;
        while i < self.nodes.len()
            invariant
                i <= self.nodes@.len(),
                self.spec_handles().len() == self.nodes@.len(),
                r@.len() == i,
                forall|t: int| 0 <= t < i ==> *(#[trigger] r@[t]) == self.spec_handles()[t],
            decreases self.nodes@.len() - i,
        {
            r.push(&self.nodes[i].handle);
            i += 1;
        }
        r
    }

    /// The handle of the node with the given id, if that node exists.
    pub fn get_handle(&self, id: u64) -> (r: Option<&H>)
        ensures
            r.is_some() <==> self.node_ids().contains(id),
            (match r {
                Some(h) => exists|i: int|
                    0 <= i < self.node_ids().len() && #[trigger] self.node_ids()[i] == id && *h == self.spec_handles()[i],
                None => true,
            }),
    {
        let mut i: usize = 0;
        while i < self.nodes.len()
            invariant
                i <= self.nodes@.len(),
                self.node_ids().len() == self.nodes@.len(),
                forall|t: int| 0 <= t < i ==> #[trigger] self.node_ids()[t] != id,
            decreases self.nodes@.len() - i,
        {
            if self.nodes[i].node_id == id {
                proof {
                    assert(self.node_ids()[i as int] == id);
                    assert(self.spec_handles()[i as int] == self.nodes@[i as int].handle);
                }
                return Some(&self.nodes[i].handle);
            }
            i += 1;
        }
        None
    }

    /// Shuts down the node with the given id, removing it from the list
    /// (the order of the rest is preserved) and telling its consensus
    /// handle to shut down. The next node id is never decremented, so ids
    /// are not reused. Fails with `NoSuchNode`, carrying the current id
    /// list, when no node has the id — including a node already shut down.
    pub fn shutdown(&mut self, node_id: u64) -> (r: Result<(), ConsensusFailedError>)
        ensures
            r.is_ok() <==> old(self).node_ids().contains(node_id),
            final(self).spec_next_node_id() == old(self).spec_next_node_id(),
            final(self).spec_round() == old(self).spec_round(),
            old(self).wf() ==> final(self).wf(),
            (match r {
                Ok(()) => {
                    &&& exists|i: int|
                        0 <= i < old(self).node_ids().len() && #[trigger] old(self).node_ids()[i] == node_id
                            && final(self).node_ids() == old(self).node_ids().remove(i)
                            && final(self).spec_handles() == old(self).spec_handles().remove(i)
                    &&& old(self).wf() ==> !final(self).node_ids().contains(node_id)
                },
                Err(e) => {
                    &&& *final(self) == *old(self)
                    &&& e matches ConsensusFailedError::NoSuchNode { node_ids, requested_id }
                        && node_ids@ == old(self).node_ids() && requested_id == node_id
                },
            }),
    {
        let mut i: usize = 0;
        while i < self.nodes.len()
            invariant
                i <= self.nodes@.len(),
                self.node_ids().len() == self.nodes@.len(),
                forall|t: int| 0 <= t < i ==> #[trigger] self.node_ids()[t] != node_id,
                *self == *old(self),
            decreases self.nodes@.len() - i,
        {
            if self.nodes[i].node_id == node_id {
                let node = self.nodes.remove(i);
                node.handle.shut_down();
                proof {
                    let ghost idx = i as int;
                    assert(old(self).node_ids()[idx] == node_id);
                    assert(self.node_ids() =~= old(self).node_ids().remove(idx));
                    assert(self.spec_handles() =~= old(self).spec_handles().remove(idx));
                    if old(self).wf() {
                        assert forall|t: int| 0 <= t < self.node_ids().len()
                            implies #[trigger] self.node_ids()[t] != node_id by {
                            if t < idx {
                                assert(self.node_ids()[t] == old(self).node_ids()[t]);
                            } else {
                                assert(self.node_ids()[t] == old(self).node_ids()[t + 1]);
                            }
                        }
                    }
                }
                return Ok(());
            }
            i += 1;
        }
        Err(ConsensusFailedError::NoSuchNode { node_ids: self.ids(), requested_id: node_id })
    }

    /// Gracefully shuts down the whole system, telling every node's
    /// consensus handle to shut down, in insertion order. The runner is
    /// consumed; the consensus side guarantees each individual shutdown is
    /// idempotent.
    pub fn shutdown_all(self) {
        let mut i: usize = 0;
        while i < self.nodes.len()
            invariant
                i <= self.nodes@.len(),
            decreases self.nodes@.len() - i,
        {
            self.nodes[i].handle.shut_down();
            i += 1;
        }
    }

    /// The default round setup: no transactions are submitted.
    pub fn default_before_round(_runner: &mut TestRunner<H, G, R>) -> (r: Vec<u64>)
        ensures
            r@ == Seq::<u64>::empty(),
    {
        Vec::new()
    }

    /// The default safety check: accepts any result.
    pub fn default_safety_check(_runner: &TestRunner<H, G, R>, _results: crate::rounds::RoundResult) {
    }
}

impl<H: ConsensusHandle, G: NodeGenerator<H>, R: RoundHooks> TestRunner<H, G, R> {
    /// Triggers one round on every node (the fan-out order carries no
    /// guarantee), then collects every node's outcome in insertion order:
    /// a node that decided goes to `success_nodes` with its decision, a
    /// node that failed goes to `failed_nodes` with its error, and the
    /// round runs to completion either way. Together the two lists cover
    /// the runner's nodes exactly once each, and the round counts as
    /// successful when no more nodes failed than the Byzantine bound
    /// tolerates.
    pub fn run_one_round(&self, txns: Vec<u64>) -> (r: RoundResult)
        ensures
            r.txns == txns,
            r.success_nodes@.len() + r.failed_nodes@.len() == self.node_ids().len(),
            entry_ids(r.success_nodes@).to_multiset().add(entry_ids(r.failed_nodes@).to_multiset())
                == self.node_ids().to_multiset(),
            self.wf() ==> crate::rounds::strictly_increasing(entry_ids(r.success_nodes@))
                && crate::rounds::strictly_increasing(entry_ids(r.failed_nodes@)),
            r.success == (r.failed_nodes@.len() <= spec_bft_threshold(self.node_ids().len() as nat)),
    {
        let mut i: usize = 0;
        while i < self.nodes.len()
            invariant
                i <= self.nodes@.len(),
            decreases self.nodes@.len() - i,
        {
            self.nodes[i].handle.start_one_round();
            i += 1;
        }

        let mut results: Vec<(u64, StateAndBlock<u64, u64>)> = Vec::new();
        let mut failures: Vec<(u64, ConsensusError)> = Vec::new();
        let mut n: usize = 0;
        while n < self.nodes.len()
            invariant
                n <= self.nodes@.len(),
                self.node_ids().len() == self.nodes@.len(),
                results@.len() + failures@.len() == n,
                entry_ids(results@).to_multiset().add(entry_ids(failures@).to_multiset())
                    == self.node_ids().take(n as int).to_multiset(),
                self.wf() ==> {
                    &&& crate::rounds::strictly_increasing(entry_ids(results@))
                    &&& crate::rounds::strictly_increasing(entry_ids(failures@))
                    &&& (n > 0 ==> crate::rounds::all_at_most(entry_ids(results@), self.node_ids()[n - 1])
                        && crate::rounds::all_at_most(entry_ids(failures@), self.node_ids()[n - 1]))
                },
            decreases self.nodes@.len() - n,
        {
            let node_id = self.nodes[n].node_id;
            let ghost pre_results = results@;
            let ghost pre_failures = failures@;
            let outcome = self.nodes[n].handle.collect_round_events();
            match outcome {
                Ok(state_and_block) => {
                    results.push((node_id, state_and_block));
                    proof {
                        assert(entry_ids(results@) =~= entry_ids(pre_results).push(node_id));
                        if self.wf() {
                            assert(node_id == self.node_ids()[n as int]);
                            lemma_round_partition_step(entry_ids(pre_results), entry_ids(pre_failures), self.node_ids(), n as int);
                        }
                    }
                },
                Err(e) => {
                    failures.push((node_id, e));
                    proof {
                        assert(entry_ids(failures@) =~= entry_ids(pre_failures).push(node_id));
                        if self.wf() {
                            assert(node_id == self.node_ids()[n as int]);
                            lemma_round_partition_step(entry_ids(pre_failures), entry_ids(pre_results), self.node_ids(), n as int);
                        }
                    }
                },
            }
            n += 1;
            proof {
                assert(self.node_ids().take(n as int)
                    =~= self.node_ids().take(n - 1).push(self.node_ids()[n - 1]));
                assert(self.node_ids()[n - 1] == node_id);
                assert(entry_ids(results@).to_multiset().add(entry_ids(failures@).to_multiset())
                    =~= self.node_ids().take(n as int).to_multiset());
            }
        }
        proof {
            assert(self.node_ids().take(self.node_ids().len() as int) =~= self.node_ids());
        }
        let success = failures.len() <= bft_threshold(self.nodes.len());
        RoundResult { txns, success_nodes: results, failed_nodes: failures, success }
    }

    /// Executes a single round of consensus: the pre-round safety check
    /// (whose failure short-circuits the round), the round setup, the
    /// round itself, and the post-round safety check on the result.
    /// Whether the round fails is decided by the two checks, which are
    /// supplied from outside the library.
    pub fn execute_round(&self, ctx: &mut RoundCtx) -> Result<(), ConsensusFailedError> {
        match self.round.safety_check_pre(ctx) {
            Err(e) => {
                return Err(e);
            },
            Ok(()) => {},
        }
        let txns = self.round.setup_round(ctx);
        let results = self.run_one_round(txns);
        match self.round.safety_check_post(ctx, results) {
            Err(e) => {
                return Err(e);
            },
            Ok(()) => {},
        }
        Ok(())
    }

    /// Runs a fixed budget of `num_success + fail_threshold` rounds over a
    /// fresh context. Every failed round counts against the budget, and
    /// the run stops with `TooManyFailures` as soon as more than
    /// `fail_threshold` rounds have failed; successful rounds never end
    /// the run early. With no successes demanded the budget can never be
    /// exceeded, so the run always succeeds.
    pub fn execute_rounds(&self, num_success: usize, fail_threshold: usize) -> (r: Result<(), ConsensusTestError>)
        requires
            num_success + fail_threshold <= usize::MAX,
        ensures
            num_success == 0 ==> r.is_ok(),
            r.is_err() ==> r == Err::<(), ConsensusTestError>(ConsensusTestError::TooManyFailures),
    {
        let total = num_success + fail_threshold;
        let mut num_fails: usize = 0;
        let mut ctx = RoundCtx::default();
        let mut i: usize = 0;
        while i < total
            invariant
                i <= total,
                total == num_success + fail_threshold,
                num_fails <= fail_threshold,
                num_fails <= i,
            decreases total - i,
        {
            let round_result = self.execute_round(&mut ctx);
            if round_result.is_err() {
                num_fails += 1;
                if num_fails > fail_threshold {
                    return Err(ConsensusTestError::TooManyFailures);
                }
            }
            i += 1;
        }
        Ok(())
    }

}


impl<H: ConsensusHandle, G: NodeGenerator<H>, R: RoundHooks> TestRunner<H, G, R> {
    /// The decided leaf of every node, in insertion order.
    pub fn decided_leaves(&self) -> (r: Vec<u64>)
        ensures
            r@.len() == self.node_ids().len(),
    {
        let mut r: Vec<u64> = Vec::new();
        let mut i: usize = 0;
        while i < self.nodes.len()
            invariant
                i <= self.nodes@.len(),
                r@.len() == i,
            decreases self.nodes@.len() - i,
        {
            r.push(self.nodes[i].handle.get_decided_leaf());
            i += 1;
        }
        r
    }

    /// Validates that the nodes agree on the decided state: collects every
    /// node's decided leaf and classifies the agreement against the first
    /// node's leaf. A full match and the two tolerated one-node lags are
    /// acceptable verdicts; `Diverged` means the cluster split and the
    /// caller must treat the run as broken.
    pub fn validate_node_states(&self) -> (r: StateValidation)
        requires
            self.node_ids().len() > 0,
        ensures
            exists|leaves: Seq<u64>|
                leaves.len() == self.node_ids().len() && r == crate::validate::spec_classify(leaves),
    {
        let leaves = self.decided_leaves();
        let verdict = classify_leaves(&leaves);
        proof {
            assert(leaves@.len() == self.node_ids().len() && verdict == crate::validate::spec_classify(leaves@));
        }
        verdict
    }

    /// Validates that enough nodes share one decided leaf. When the
    /// description asks for a leaf check, collects every node's decided
    /// leaf and returns a leaf held by at least `n - num_out_of_sync`
    /// nodes — the collective decision — if one exists; without a leaf
    /// check there is nothing to report.
    pub fn validate_nodes(&self, desc: &RoundCheckDescription, _views_since_failed: usize) -> (r: Option<u64>)
        requires
            desc.num_out_of_sync <= self.node_ids().len(),
        ensures
            !desc.check_leaf ==> r is None,
            (match r {
                Some(l) => exists|leaves: Seq<u64>|
                    leaves.len() == self.node_ids().len() && leaves.contains(l)
                        && crate::validate::count_eq(leaves, l) >= leaves.len() - desc.num_out_of_sync,
                None => desc.check_leaf ==> exists|leaves: Seq<u64>|
                    leaves.len() == self.node_ids().len()
                        && crate::validate::no_collective_leaf(leaves, desc.num_out_of_sync),
            }),
    {
        if !desc.check_leaf {
            return None;
        }
        let leaves = self.decided_leaves();
        let r = collective_leaf(&leaves, desc.num_out_of_sync);
        proof {
            match r {
                Some(l) => {
                    assert(leaves@.len() == self.node_ids().len() && leaves@.contains(l)
                        && crate::validate::count_eq(leaves@, l) >= leaves@.len() - desc.num_out_of_sync);
                },
                None => {
                    assert(leaves@.len() == self.node_ids().len()
                        && crate::validate::no_collective_leaf(leaves@, desc.num_out_of_sync));
                },
            }
        }
        r
    }

    /// Submits one random transaction: reads node 0's decided leaf (all
    /// nodes are assumed to share it; a mismatch is caught by the state
    /// validation and the transaction would be rejected anyway), asks the
    /// implementation for a random transaction against that leaf, and
    /// submits it to the chosen node — the given index, or a uniformly
    /// random one. Returns the transaction so tests can track it; a
    /// rejected submission surfaces the handle's error.
    pub fn add_random_transaction(&self, node_idx: Option<usize>) -> (r: Result<u64, ConsensusError>)
        requires
            self.node_ids().len() > 0,
            (match node_idx {
                Some(i) => i < self.node_ids().len(),
                None => true,
            }),
    {
        let leaf = self.nodes[0].handle.get_decided_leaf();
        let txn = self.nodes[0].handle.create_random_transaction(leaf);
        let idx = self.pick_target_index(node_idx);
        match self.nodes[idx].handle.submit_transaction(txn) {
            Ok(()) => Ok(txn),
            Err(e) => Err(e),
        }
    }

    /// The node a transaction goes to: the requested index as given, or a
    /// uniformly random node otherwise.
    fn pick_target_index(&self, node_idx: Option<usize>) -> (r: usize)
        requires
            self.node_ids().len() > 0,
            (match node_idx {
                Some(i) => i < self.node_ids().len(),
                None => true,
            }),
        ensures
            r < self.node_ids().len(),
            (match node_idx {
                Some(i) => r == i,
                None => true,
            }),
    {
        match node_idx {
            Some(i) => i,
            None => crate::sampling::random_below(self.nodes.len()),
        }
    }

    /// Submits `n` random transactions one after the other, returning them
    /// all, or nothing if any submission was rejected. With nothing to
    /// submit no submission can be rejected, so the empty batch succeeds.
    pub fn add_random_transactions(&self, n: usize) -> (r: Option<Vec<u64>>)
        requires
            self.node_ids().len() > 0,
        ensures
            n == 0 ==> r is Some,
            (match r {
                Some(txns) => txns@.len() == n,
                None => true,
            }),
    {
        let mut result: Vec<u64> = Vec::new();
        let mut i: usize = 0;
        while i < n
            invariant
                i <= n,
                result@.len() == i,
                self.node_ids().len() > 0,
            decreases n - i,
        {
            match self.add_random_transaction(None) {
                Ok(txn) => {
                    result.push(txn);
                },
                Err(_) => {
                    return None;
                },
            }
            i += 1;
        }
        Some(result)
    }
}

/// One step of the round-result partition: appending node `n`'s id to the
/// list that receives it keeps both lists strictly increasing and bounded
/// by the ids handed out so far.
proof fn lemma_round_partition_step(grown: Seq<u64>, other: Seq<u64>, ids: Seq<u64>, n: int)
    requires
        crate::rounds::strictly_increasing(ids),
        0 <= n < ids.len(),
        crate::rounds::strictly_increasing(grown),
        crate::rounds::strictly_increasing(other),
        grown.len() + other.len() == n,
        n > 0 ==> crate::rounds::all_at_most(grown, ids[n - 1]) && crate::rounds::all_at_most(other, ids[n - 1]),
    ensures
        crate::rounds::strictly_increasing(grown.push(ids[n])),
        crate::rounds::all_at_most(grown.push(ids[n]), ids[n]),
        crate::rounds::all_at_most(other, ids[n]),
{
    let pushed = grown.push(ids[n]);
    assert forall|t1: int, t2: int| 0 <= t1 < t2 < pushed.len() implies #[trigger] pushed[t1] < #[trigger] pushed[t2] by {
        if t2 == pushed.len() - 1 {
            assert(pushed[t1] == grown[t1]);
            assert(grown[t1] <= ids[n - 1]);
            assert(ids[n - 1] < ids[n]);
        } else {
            assert(pushed[t1] == grown[t1]);
            assert(pushed[t2] == grown[t2]);
        }
    }
    assert forall|t: int| 0 <= t < pushed.len() implies #[trigger] pushed[t] <= ids[n] by {
        if t < pushed.len() - 1 {
            assert(pushed[t] == grown[t]);
            assert(grown[t] <= ids[n - 1]);
            assert(ids[n - 1] < ids[n]);
        } else {
            assert(pushed[t] == ids[n]);
        }
    }
    assert forall|t: int| 0 <= t < other.len() implies #[trigger] other[t] <= ids[n] by {
        assert(other[t] <= ids[n - 1]);
        assert(ids[n - 1] < ids[n]);
    }
}

/// Every node a well-formed runner holds has an id strictly below the next
/// id to be allocated: allocation is monotone and ids are never reused.
pub proof fn lemma_node_ids_bounded<H: ConsensusHandle, G: NodeGenerator<H>, R: RoundHooks>(runner: &TestRunner<H, G, R>)
    requires
        runner.wf(),
    ensures
        forall|i: int|
            0 <= i < runner.node_ids().len() ==> #[trigger] runner.node_ids()[i] < runner.spec_next_node_id(),
{
}

/// In a well-formed runner the node ids are strictly increasing in
/// insertion order, so no id occurs twice.
pub proof fn lemma_node_ids_unique<H: ConsensusHandle, G: NodeGenerator<H>, R: RoundHooks>(runner: &TestRunner<H, G, R>)
    requires
        runner.wf(),
    ensures
        forall|i: int, j: int|
            0 <= i < j < runner.node_ids().len() ==> #[trigger] runner.node_ids()[i] < #[trigger] runner.node_ids()[j],
{
}

} // verus!
