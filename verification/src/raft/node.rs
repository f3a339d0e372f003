//! The state a node reports to its user.
use vstd::prelude::*;

verus! {

/// The role of a node, as a number.
pub type StateType = u64;

/// Whether a snapshot reached a follower.
#[derive(Debug, Clone, Copy, PartialEq, Eq, Structural)]
pub enum SnapshotStatus {
    Finish,
    Failure,
}

/// The volatile state of a node, useful for logging and debugging: its
/// leader and its role. It is not persisted.
#[derive(Debug, Eq)]
pub struct SoftState {
    pub lead: u64,
    pub raft_state: StateType,
}

impl PartialEq for SoftState {
    fn eq(&self, other: &Self) -> (r: bool) {
        self.lead == other.lead && self.raft_state == other.raft_state
    }
}

impl vstd::std_specs::cmp::PartialEqSpecImpl for SoftState {
    open spec fn obeys_eq_spec() -> bool {
        true
    }

    open spec fn eq_spec(&self, other: &Self) -> bool {
        self.lead == other.lead && self.raft_state == other.raft_state
    }
}

} // verus!
