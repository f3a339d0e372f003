//! Read-only requests served by the leader.
use vstd::prelude::*;
use crate::raft::raft::ReadOnlyOption;

verus! {

/// The state of a read-only request: the commit index at the time it was
/// received, and the context that identifies it.
pub struct ReadState {
    pub index: u64,
    pub request_ctx: Vec<u8>,
}

/// The read-only requests pending at the leader.
pub struct ReadOnly {
    pub option: ReadOnlyOption,
    /// The contexts of the pending read-index requests, in arrival order.
    pub read_index_queue: Vec<Vec<u8>>,
}

} // verus!
