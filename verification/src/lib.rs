//! Test harness for a Byzantine-fault-tolerant consensus system.
//!
//! The crate models the two halves of the harness:
//!
//! * a per-replica network-node handle together with the swarm bootstrap
//!   that forms an overlay mesh out of bootstrap and regular nodes
//!   ([`network_node_handle`]), and
//! * a test runner that owns one consensus handle per replica, drives
//!   rounds through a pre-check / setup / post-check pipeline, and
//!   validates cross-node agreement on the decided leaves ([`runner`],
//!   [`rounds`], [`validate`]).
//!
//! The overlay endpoint and the consensus protocol themselves are outside
//! collaborators: the harness reaches them through the [`runner::ConsensusHandle`]
//! and [`runner::NodeGenerator`] traits and through plain event values, and
//! everything the harness itself decides is verified.

pub mod errors;
pub mod network_node_handle;
pub mod rounds;
pub mod runner;
mod sampling;
pub mod validate;
