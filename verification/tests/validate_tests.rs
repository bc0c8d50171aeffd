use std::cell::Cell;

use consensus_harness::errors::ConsensusError;
use consensus_harness::rounds::DefaultRound;
use consensus_harness::runner::{ConsensusHandle, NodeGenerator, TestRunner};
use consensus_harness::validate::{classify_leaves, collective_leaf, RoundCheckDescription, StateValidation};

struct LeafHandle {
    leaf: u64,
}

impl ConsensusHandle for LeafHandle {
    fn start_one_round(&self) {}

    fn collect_round_events(&self) -> Result<(Vec<u64>, Vec<u64>), ConsensusError> {
        Ok((vec![self.leaf], vec![self.leaf]))
    }

    fn get_decided_leaf(&self) -> u64 {
        self.leaf
    }

    fn submit_transaction(&self, _txn: u64) -> Result<(), ConsensusError> {
        Ok(())
    }

    fn shut_down(&self) {}

    fn create_random_transaction(&self, leaf: u64) -> u64 {
        leaf
    }
}

struct LeafGenerator {
    leaves: Vec<u64>,
    next: Cell<usize>,
}

impl NodeGenerator<LeafHandle> for LeafGenerator {
    fn generate(&mut self, _node_id: u64) -> LeafHandle {
        let i = self.next.get();
        self.next.set(i + 1);
        LeafHandle { leaf: self.leaves[i] }
    }
}

fn runner_with_leaves(leaves: &[u64]) -> TestRunner<LeafHandle, LeafGenerator, DefaultRound> {
    let count = leaves.len();
    let generator = LeafGenerator { leaves: leaves.to_vec(), next: Cell::new(0) };
    let mut runner = TestRunner::new(generator, DefaultRound);
    let _ = runner.add_nodes(count);
    runner
}

#[test]
fn all_nodes_on_same_leaf_match() {
    assert_eq!(classify_leaves(&vec![4, 4, 4, 4]), StateValidation::AllMatch);
    assert_eq!(classify_leaves(&vec![4]), StateValidation::AllMatch);
}

#[test]
fn one_mismatch_is_tolerated() {
    assert_eq!(classify_leaves(&vec![4, 4, 9]), StateValidation::SingleMismatch);
    assert_eq!(classify_leaves(&vec![4, 9, 4, 4]), StateValidation::SingleMismatch);
}

#[test]
fn two_mismatches_out_of_three_diverge() {
    // two nodes agree with each other against the first: a real split
    assert_eq!(classify_leaves(&vec![4, 9, 9]), StateValidation::Diverged);
}

#[test]
fn first_node_outlier_is_tolerated() {
    // every other node disagrees with the first and with each other
    assert_eq!(classify_leaves(&vec![4, 7, 9]), StateValidation::FirstNodeOutlier);
    assert_eq!(classify_leaves(&vec![4, 7, 9, 11]), StateValidation::FirstNodeOutlier);
}

#[test]
fn two_pairs_of_leaves_diverge() {
    assert_eq!(classify_leaves(&vec![4, 4, 9, 9]), StateValidation::Diverged);
}

#[test]
fn validate_node_states_on_runner_leaves() {
    assert_eq!(runner_with_leaves(&[5, 5, 5, 5]).validate_node_states(), StateValidation::AllMatch);
    assert_eq!(runner_with_leaves(&[5, 5, 5, 9]).validate_node_states(), StateValidation::SingleMismatch);
    // two pairs committing different leaves must not be accepted
    assert_eq!(runner_with_leaves(&[5, 5, 9, 9]).validate_node_states(), StateValidation::Diverged);
    assert_eq!(runner_with_leaves(&[5, 9, 9]).validate_node_states(), StateValidation::Diverged);
}

#[test]
fn collective_leaf_requires_quorum() {
    assert_eq!(collective_leaf(&vec![5, 5, 5, 7], 1), Some(5));
    assert_eq!(collective_leaf(&vec![5, 5, 5, 7], 0), None);
    assert_eq!(collective_leaf(&vec![5, 5, 7, 7], 2), Some(5));
    assert_eq!(collective_leaf(&vec![5, 6, 7], 1), None);
    assert_eq!(collective_leaf(&Vec::new(), 0), None);
}

#[test]
fn validate_nodes_reports_collective_decision() {
    let runner = runner_with_leaves(&[5, 5, 5, 7]);
    let lenient = RoundCheckDescription { check_leaf: true, num_out_of_sync: 1 };
    assert_eq!(runner.validate_nodes(&lenient, 0), Some(5));
    let strict = RoundCheckDescription { check_leaf: true, num_out_of_sync: 0 };
    assert_eq!(runner.validate_nodes(&strict, 0), None);
    let no_check = RoundCheckDescription { check_leaf: false, num_out_of_sync: 0 };
    assert_eq!(runner.validate_nodes(&no_check, 0), None);
}
