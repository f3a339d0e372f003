//! What quorums are computed from: acknowledged indexes and votes.
use std::collections::HashMap;
use vstd::prelude::*;
use crate::raft::util::text::{decimal, decimal_string, push_char};

verus! {

broadcast use vstd::std_specs::hash::group_hash_axioms;

/// A log position.
pub type Index = u64;

/// The text of an index: its decimal form, or `∞` for the largest index.
pub open spec fn index_text(index: u64) -> Seq<char> {
    if index == u64::MAX {
        seq!['∞']
    } else {
        decimal(index as nat)
    }
}

pub fn string(index: Index) -> (r: String)
    ensures
        r@ == index_text(index),
{
    if index == u64::MAX {
        let mut s = String::new();
        push_char(&mut s, '∞');
        proof {
            assert(s@ =~= seq!['∞']);
        }
        s
    } else {
        decimal_string(index)
    }
}

/// Where a quorum reads the index up to which each voter has acknowledged
/// the log.
pub trait AckedIndexer {
    /// The index that `voter_id` has acknowledged, if it is known.
    spec fn acked(&self, voter_id: u64) -> Option<u64>;

    fn acked_index(&self, voter_id: &u64) -> (r: Option<&Index>)
        ensures
            match r {
                Some(i) => self.acked(*voter_id) == Some(*i),
                None => self.acked(*voter_id) is None,
            },
    ;
}

/// An `AckedIndexer` backed by a map from voter to index.
pub struct MapAckIndexer(pub HashMap<u64, Index>);

impl AckedIndexer for MapAckIndexer {
    open spec fn acked(&self, voter_id: u64) -> Option<u64> {
        if self.0@.contains_key(voter_id) {
            Some(self.0@[voter_id])
        } else {
            None
        }
    }

    fn acked_index(&self, voter_id: &u64) -> (r: Option<&Index>) {
        self.0.get(voter_id)
    }
}

/// The outcome of an election, as far as the votes cast so far decide it.
#[derive(Debug, Clone, Copy, PartialEq, Eq, Structural)]
pub enum VoteResult {
    /// Neither yes nor no has reached a quorum yet: the outcome depends on
    /// votes still to come.
    VotePending,
    /// A quorum has voted no.
    VoteLost,
    /// A quorum has voted yes.
    VoteWon,
}

} // verus!
