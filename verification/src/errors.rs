//! Error types surfaced by the harness.

use vstd::prelude::*;

verus! {

/// Error reported by a network node when one of its control channels is gone.
///
/// The handle only ever observes the closed-stream condition; everything else
/// the overlay endpoint reports stays inside the endpoint.
#[derive(Debug, Clone, PartialEq, Eq, Structural)]
pub enum NetworkError {
    /// A command or kill channel was closed on the receiving side.
    StreamClosed,
}

/// Error wrapper for interacting with a swarm handle.
#[derive(Debug, Clone, PartialEq, Eq, Structural)]
pub enum NetworkNodeHandleError {
    /// Error generating the underlying network endpoint.
    NetworkError,
    /// Failure to serialize a message.
    SerializationError,
    /// Failure to deserialize a message.
    DeserializationError,
    /// Error sending a request to the network.
    SendError,
    /// Error receiving a message from the network.
    RecvError,
    /// Timeout while spinning up a handle.
    TimeoutError,
    /// Error building the node configuration.
    NodeConfigError,
}

/// Error a consensus handle reports for a node that failed to decide in a
/// round. The harness treats it as opaque data.
#[derive(Debug, Clone)]
pub struct ConsensusError {
    /// Description of the failure, as reported by the consensus handle.
    pub description: String,
}

/// Error returned from runner methods related to transactions.
#[derive(Debug, Clone, PartialEq, Eq, Structural)]
pub enum TransactionError {
    /// There are no valid nodes online.
    NoNodes,
    /// There are no valid balances available.
    NoValidBalance,
    /// The requested node does not exist.
    InvalidNode,
}

/// Overarching errors encountered when trying to reach consensus in a round.
#[derive(Debug, Clone)]
pub enum ConsensusFailedError {
    /// A safety condition failed.
    SafetyFailed {
        /// Description of the error.
        description: String,
    },
    /// No node with the requested id exists.
    NoSuchNode {
        /// The ids of the existing nodes.
        node_ids: Vec<u64>,
        /// The id that was requested.
        requested_id: u64,
    },
    /// A view timed out with every node as the leader.
    TimedOutWithoutAnyLeader,
    /// No transactions were submitted during the round.
    NoTransactionsSubmitted,
    /// The replicas timed out.
    ReplicasTimedOut,
    /// States after a round of consensus are inconsistent.
    InconsistentAfterTxn,
    /// Unable to submit a valid transaction.
    TransactionError {
        /// Source of the error.
        source: TransactionError,
    },
    /// Too many consecutive rounds failed.
    TooManyConsecutiveFailures,
    /// Too many views failed overall.
    TooManyViewFailures,
    /// The decided leaves are inconsistent across nodes.
    InconsistentLeaves,
    /// The decided states are inconsistent across nodes.
    InconsistentStates,
    /// The decided blocks are inconsistent across nodes.
    InconsistentBlocks,
}

/// An overarching consensus test failure.
#[derive(Debug, Clone, PartialEq, Eq, Structural)]
pub enum ConsensusTestError {
    /// Too many rounds failed.
    TooManyFailures,
}

} // verus!
