use std::cell::{Cell, RefCell};
use std::rc::Rc;

use consensus_harness::errors::{ConsensusError, ConsensusFailedError, ConsensusTestError};
use consensus_harness::rounds::{rounds_verdict, DefaultRound, RoundCtx, RoundHooks, RoundResult};
use consensus_harness::runner::{ConsensusHandle, NodeGenerator, TestRunner};

struct StubHandle {
    leaf: u64,
    decide_ok: bool,
    started: Cell<u64>,
    shut_downs: Rc<Cell<u64>>,
    submitted: Rc<RefCell<Vec<u64>>>,
    submit_ok: bool,
}

impl StubHandle {
    fn new(leaf: u64, decide_ok: bool) -> StubHandle {
        StubHandle {
            leaf,
            decide_ok,
            started: Cell::new(0),
            shut_downs: Rc::new(Cell::new(0)),
            submitted: Rc::new(RefCell::new(Vec::new())),
            submit_ok: true,
        }
    }
}

impl ConsensusHandle for StubHandle {
    fn start_one_round(&self) {
        self.started.set(self.started.get() + 1);
    }

    fn collect_round_events(&self) -> Result<(Vec<u64>, Vec<u64>), ConsensusError> {
        if self.decide_ok {
            Ok((vec![self.leaf], vec![self.leaf]))
        } else {
            Err(ConsensusError { description: String::from("replica timed out") })
        }
    }

    fn get_decided_leaf(&self) -> u64 {
        self.leaf
    }

    fn submit_transaction(&self, txn: u64) -> Result<(), ConsensusError> {
        if self.submit_ok {
            self.submitted.borrow_mut().push(txn);
            Ok(())
        } else {
            Err(ConsensusError { description: String::from("submission rejected") })
        }
    }

    fn shut_down(&self) {
        self.shut_downs.set(self.shut_downs.get() + 1);
    }

    fn create_random_transaction(&self, leaf: u64) -> u64 {
        leaf.wrapping_mul(31).wrapping_add(7)
    }
}

struct StubGenerator;

impl NodeGenerator<StubHandle> for StubGenerator {
    fn generate(&mut self, node_id: u64) -> StubHandle {
        StubHandle::new(node_id, true)
    }
}

struct FailingPost;

impl RoundHooks for FailingPost {
    fn safety_check_pre(&self, _ctx: &RoundCtx) -> Result<(), ConsensusFailedError> {
        Ok(())
    }

    fn setup_round(&self, _ctx: &RoundCtx) -> Vec<u64> {
        Vec::new()
    }

    fn safety_check_post(&self, _ctx: &mut RoundCtx, _result: RoundResult) -> Result<(), ConsensusFailedError> {
        Err(ConsensusFailedError::SafetyFailed { description: String::from("injected failure") })
    }
}

struct RecordingPost {
    txn_counts: Rc<RefCell<Vec<usize>>>,
    success_flags: Rc<RefCell<Vec<bool>>>,
}

impl RoundHooks for RecordingPost {
    fn safety_check_pre(&self, _ctx: &RoundCtx) -> Result<(), ConsensusFailedError> {
        Ok(())
    }

    fn setup_round(&self, _ctx: &RoundCtx) -> Vec<u64> {
        Vec::new()
    }

    fn safety_check_post(&self, _ctx: &mut RoundCtx, result: RoundResult) -> Result<(), ConsensusFailedError> {
        self.txn_counts.borrow_mut().push(result.txns.len());
        self.success_flags.borrow_mut().push(result.success);
        Ok(())
    }
}

fn runner_with_nodes(count: usize) -> TestRunner<StubHandle, StubGenerator, DefaultRound> {
    let mut runner = TestRunner::new(StubGenerator, DefaultRound);
    let _ = runner.add_nodes(count);
    runner
}

#[test]
fn ids_returns_insertion_order() {
    let mut runner = TestRunner::new(StubGenerator, DefaultRound);
    let allocated = runner.add_nodes(3);
    assert_eq!(allocated, vec![0, 1, 2]);
    assert_eq!(runner.ids(), vec![0, 1, 2]);
    assert_eq!(runner.next_node_id(), 3);
}

#[test]
fn node_removal_and_no_such_node() {
    let mut runner = runner_with_nodes(3);
    assert!(runner.shutdown(1).is_ok());
    assert_eq!(runner.ids(), vec![0, 2]);
    match runner.shutdown(1) {
        Err(ConsensusFailedError::NoSuchNode { node_ids, requested_id }) => {
            assert_eq!(node_ids, vec![0, 2]);
            assert_eq!(requested_id, 1);
        }
        other => panic!("expected NoSuchNode, got {:?}", other.is_ok()),
    }
}

#[test]
fn shutdown_keeps_next_node_id() {
    let mut runner = runner_with_nodes(3);
    assert!(runner.shutdown(1).is_ok());
    assert_eq!(runner.next_node_id(), 3);
    assert!(runner.get_handle(1).is_none());
    let allocated = runner.add_nodes(1);
    assert_eq!(allocated, vec![3]);
    assert_eq!(runner.ids(), vec![0, 2, 3]);
}

#[test]
fn get_handle_finds_existing_node() {
    let runner = runner_with_nodes(3);
    let handle = runner.get_handle(2).expect("node 2 exists");
    assert_eq!(handle.get_decided_leaf(), 2);
    assert!(runner.get_handle(7).is_none());
}

#[test]
fn shutdown_tells_the_consensus_handle() {
    let mut runner = TestRunner::new(StubGenerator, DefaultRound);
    let handle = StubHandle::new(0, true);
    let counter = Rc::clone(&handle.shut_downs);
    let id = runner.add_node_with_config(handle);
    assert!(runner.shutdown(id).is_ok());
    assert_eq!(counter.get(), 1);
}

#[test]
fn shutdown_all_shuts_each_node_once() {
    let mut runner = TestRunner::new(StubGenerator, DefaultRound);
    let mut counters = Vec::new();
    for i in 0..3u64 {
        let handle = StubHandle::new(i, true);
        counters.push(Rc::clone(&handle.shut_downs));
        runner.add_node_with_config(handle);
    }
    runner.shutdown_all();
    for counter in counters {
        assert_eq!(counter.get(), 1);
    }
}

#[test]
fn run_one_round_partitions_all_nodes() {
    let mut runner = TestRunner::new(StubGenerator, DefaultRound);
    for (i, ok) in [true, true, false, false].iter().enumerate() {
        runner.add_node_with_config(StubHandle::new(i as u64, *ok));
    }
    let result = runner.run_one_round(vec![41, 42]);
    assert_eq!(result.txns, vec![41, 42]);
    assert_eq!(result.success_nodes.len() + result.failed_nodes.len(), 4);
    let success_ids: Vec<u64> = result.success_nodes.iter().map(|e| e.0).collect();
    let failed_ids: Vec<u64> = result.failed_nodes.iter().map(|e| e.0).collect();
    assert_eq!(success_ids, vec![0, 1]);
    assert_eq!(failed_ids, vec![2, 3]);
    // two failures out of four exceed the fault bound floor((4 - 1) / 3) = 1
    assert!(!result.success);
}

#[test]
fn run_one_round_within_fault_bound_is_success() {
    let mut runner = TestRunner::new(StubGenerator, DefaultRound);
    for (i, ok) in [true, true, true, false].iter().enumerate() {
        runner.add_node_with_config(StubHandle::new(i as u64, *ok));
    }
    let result = runner.run_one_round(Vec::new());
    assert_eq!(result.failed_nodes.len(), 1);
    assert!(result.success);
    for node in 0..4u64 {
        let handle = runner.get_handle(node).expect("node exists");
        assert_eq!(handle.started.get(), 1);
    }
}

#[test]
fn execute_rounds_default_pipeline_succeeds() {
    let runner = runner_with_nodes(4);
    assert!(runner.execute_rounds(1, 0).is_ok());
}

#[test]
fn default_round_submits_no_transactions() {
    let mut runner = TestRunner::new(StubGenerator, RecordingPost {
        txn_counts: Rc::new(RefCell::new(Vec::new())),
        success_flags: Rc::new(RefCell::new(Vec::new())),
    });
    let txn_counts = Rc::new(RefCell::new(Vec::new()));
    let success_flags = Rc::new(RefCell::new(Vec::new()));
    runner.with_round(RecordingPost {
        txn_counts: Rc::clone(&txn_counts),
        success_flags: Rc::clone(&success_flags),
    });
    let _ = runner.add_nodes(4);
    assert!(runner.execute_rounds(1, 0).is_ok());
    assert_eq!(*txn_counts.borrow(), vec![0]);
    assert_eq!(*success_flags.borrow(), vec![true]);
}

#[test]
fn execute_rounds_within_failure_budget_succeeds() {
    let mut runner = TestRunner::new(StubGenerator, FailingPost);
    let _ = runner.add_nodes(4);
    // every round fails; a budget of two failures over two rounds is not exceeded
    assert!(runner.execute_rounds(0, 2).is_ok());
}

#[test]
fn execute_rounds_over_failure_budget_fails() {
    let mut runner = TestRunner::new(StubGenerator, FailingPost);
    let _ = runner.add_nodes(4);
    // two rounds run and both fail: the second failure exceeds the budget of one
    assert_eq!(runner.execute_rounds(1, 1), Err(ConsensusTestError::TooManyFailures));
}

#[test]
fn execute_rounds_zero_budget_fails_on_first_failure() {
    let mut runner = TestRunner::new(StubGenerator, FailingPost);
    let _ = runner.add_nodes(2);
    assert_eq!(runner.execute_rounds(2, 0), Err(ConsensusTestError::TooManyFailures));
}

#[test]
fn rounds_verdict_counts_failures_against_budget() {
    assert_eq!(rounds_verdict(&vec![true, false, true], 0), Err(ConsensusTestError::TooManyFailures));
    assert!(rounds_verdict(&vec![true, false, true], 1).is_ok());
    assert!(rounds_verdict(&vec![true, true, true], 0).is_ok());
    assert_eq!(rounds_verdict(&vec![false, false], 1), Err(ConsensusTestError::TooManyFailures));
    assert!(rounds_verdict(&Vec::new(), 0).is_ok());
}

#[test]
fn add_random_transaction_targets_requested_node() {
    let mut runner = TestRunner::new(StubGenerator, DefaultRound);
    let mut submitted = Vec::new();
    for _ in 0..3u64 {
        let handle = StubHandle::new(7, true);
        submitted.push(Rc::clone(&handle.submitted));
        runner.add_node_with_config(handle);
    }
    let txn = runner.add_random_transaction(Some(2)).expect("submission accepted");
    // the transaction is manufactured against node 0's decided leaf
    assert_eq!(txn, 7u64.wrapping_mul(31).wrapping_add(7));
    assert_eq!(*submitted[2].borrow(), vec![txn]);
    assert!(submitted[0].borrow().is_empty());
    assert!(submitted[1].borrow().is_empty());
}

#[test]
fn add_random_transaction_picks_some_node() {
    let mut runner = TestRunner::new(StubGenerator, DefaultRound);
    let mut submitted = Vec::new();
    for _ in 0..3u64 {
        let handle = StubHandle::new(5, true);
        submitted.push(Rc::clone(&handle.submitted));
        runner.add_node_with_config(handle);
    }
    let txn = runner.add_random_transaction(None).expect("submission accepted");
    let total: usize = submitted.iter().map(|s| s.borrow().len()).sum();
    assert_eq!(total, 1);
    assert_eq!(txn, 5u64.wrapping_mul(31).wrapping_add(7));
}

#[test]
fn add_random_transactions_returns_all_submitted() {
    let runner = runner_with_nodes(3);
    let txns = runner.add_random_transactions(5).expect("all submissions accepted");
    assert_eq!(txns.len(), 5);
}

#[test]
fn add_random_transactions_empty_batch_succeeds() {
    let mut runner = TestRunner::new(StubGenerator, DefaultRound);
    let mut handle = StubHandle::new(0, true);
    handle.submit_ok = false;
    runner.add_node_with_config(handle);
    // nothing is submitted, so even a rejecting node cannot fail the batch
    let txns = runner.add_random_transactions(0).expect("empty batch");
    assert!(txns.is_empty());
}

#[test]
fn default_round_hooks_accept_and_submit_nothing() {
    let hooks = DefaultRound;
    let mut ctx = RoundCtx::default();
    assert!(hooks.safety_check_pre(&ctx).is_ok());
    assert!(hooks.setup_round(&ctx).is_empty());
    let result = RoundResult::default();
    assert!(hooks.safety_check_post(&mut ctx, result).is_ok());
    assert!(ctx.prior_round_results.is_empty());
    assert_eq!(ctx.views_since_progress, 0);
    assert_eq!(ctx.total_failed_views, 0);
}

#[test]
fn add_random_transactions_reports_rejection() {
    let mut runner = TestRunner::new(StubGenerator, DefaultRound);
    let mut handle = StubHandle::new(0, true);
    handle.submit_ok = false;
    runner.add_node_with_config(handle);
    assert!(runner.add_random_transactions(2).is_none());
}
