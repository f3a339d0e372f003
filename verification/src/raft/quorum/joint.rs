//! A joint quorum: two majority configurations that must both agree.
use std::collections::{HashMap, HashSet};
use vstd::prelude::*;
use crate::raft::quorum::majority::{
    committed_index_of, extends_votes, ids_of, is_committed_index, lemma_committed_index_of,
    lemma_vote_result_monotone, majority_describe,
    majority_text,
    majority_vote_result, MajorityConfig,
};
use crate::raft::quorum::quorum::{AckedIndexer, Index, VoteResult};

verus! {

broadcast use vstd::std_specs::hash::group_hash_axioms, vstd::set::group_set_axioms,
    vstd::seq_lib::group_seq_properties;

/// The outcome of a joint election: where the halves agree, their common
/// outcome; where either half has lost, lost; otherwise pending.
pub open spec fn joint_vote_result(r1: VoteResult, r2: VoteResult) -> VoteResult {
    if r1 == r2 {
        r1
    } else if r1 == VoteResult::VoteLost || r2 == VoteResult::VoteLost {
        VoteResult::VoteLost
    } else {
        VoteResult::VotePending
    }
}

/// The textual form of a joint configuration with halves `c0` and `c1`: the
/// incoming half alone outside a joint change, both halves joined by `&&`
/// inside one.
pub open spec fn joint_text(c0: Set<u64>, c1: Set<u64>) -> Seq<char> {
    if c1.len() != 0 {
        majority_text(c0) + seq!['&', '&'] + majority_text(c1)
    } else {
        majority_text(c0)
    }
}

/// A configuration of two majorities, the incoming one first and the
/// outgoing one second; outside a joint change the second is empty.
pub struct JointConfig(pub [MajorityConfig; 2]);

impl JointConfig {
    pub fn new() -> (r: Self)
        ensures
            r.0[0].votes@ == Set::<u64>::empty(),
            r.0[1].votes@ == Set::<u64>::empty(),
    {
        JointConfig([MajorityConfig::new(), MajorityConfig::new()])
    }

    /// A copy of the configuration.
    pub fn copy(&self) -> (r: Self)
        ensures
            r.0[0].votes@ == self.0[0].votes@,
            r.0[1].votes@ == self.0[1].votes@,
    {
        JointConfig([self.0[0].copy(), self.0[1].copy()])
    }

    /// The configuration as text.
    pub fn to_string(&self) -> (r: String)
        ensures
            r@ == joint_text(self.0[0].votes@, self.0[1].votes@),
    {
        let outgoing = &self.0[1];
        if outgoing.votes.len() != 0 {
            let mut s = self.0[0].to_string();
            crate::raft::util::text::push_str(&mut s, "&&");
            let t = self.0[1].to_string();
            crate::raft::util::text::push_str(&mut s, t.as_str());
            proof {
                assert("&&"@ =~= seq!['&', '&']) by {
                    reveal_strlit("&&");
                }
                assert(s@ =~= joint_text(self.0[0].votes@, self.0[1].votes@));
            }
            s
        } else {
            self.0[0].to_string()
        }
    }

    /// The voters of both halves.
    pub fn ids(&self) -> (r: HashSet<u64>)
        ensures
            r@ == self.0[0].votes@.union(self.0[1].votes@),
    {
        let mut hash_set: HashSet<u64> = HashSet::new();
        let mut h: usize = 0;
        while h < 2
            invariant
                h <= 2,
                hash_set@ == if h == 0 {
                    Set::<u64>::empty()
                } else if h == 1 {
                    self.0[0].votes@
                } else {
                    self.0[0].votes@.union(self.0[1].votes@)
                },
            decreases 2 - h,
        {
            let ids = ids_of(&self.0[h].votes);
            let ghost before = hash_set@;
            let mut i: usize = 0;
            while i < ids.len()
                invariant
                    i <= ids@.len(),
                    hash_set@ == before.union(ids@.take(i as int).to_set()),
                decreases ids@.len() - i,
            {
                hash_set.insert(ids[i]);
                proof {
                    assert(ids@.take(i as int + 1) =~= ids@.take(i as int).push(ids@[i as int]));
                    assert(ids@.take(i as int + 1).to_set() =~= ids@.take(i as int).to_set().insert(
                        ids@[i as int],
                    ));
                    assert(hash_set@ =~= before.union(ids@.take(i as int + 1).to_set()));
                }
                i = i + 1;
            }
            proof {
                assert(ids@.take(ids@.len() as int) =~= ids@);
                if h == 0 {
                    assert(hash_set@ =~= self.0[0].votes@);
                } else {
                    assert(hash_set@ =~= self.0[0].votes@.union(self.0[1].votes@));
                }
            }
            h = h + 1;
        }
        hash_set
    }

    /// The table of the indexes that `l` gives the voters of both halves, as
    /// one majority configuration describes them.
    pub fn describe<T: AckedIndexer>(&self, l: &T) -> (r: String)
        ensures
            r@ == majority_describe(*l, self.0[0].votes@.union(self.0[1].votes@)),
    {
        let all = MajorityConfig { votes: self.ids() };
        all.describe(l)
    }

    /// The largest index committed in both halves: the smaller of the two
    /// committed indexes.
    pub fn committed<T: AckedIndexer>(&self, l: &T) -> (r: Index)
        ensures
            r == vstd::math::min(
                committed_index_of(*l, self.0[0].votes@) as int,
                committed_index_of(*l, self.0[1].votes@) as int,
            ),
    {
        let idx0 = self.0[0].committed_index(l);
        let idx1 = self.0[1].committed_index(l);
        if idx0 < idx1 {
            return idx0;
        }
        idx1
    }

    /// The outcome of the joint election given the votes cast so far.
    pub fn vote_result(&self, votes: &HashMap<u64, bool>) -> (r: VoteResult)
        ensures
            r == joint_vote_result(
                majority_vote_result(self.0[0].votes@, votes@),
                majority_vote_result(self.0[1].votes@, votes@),
            ),
    {
        let r1 = self.0[0].vote_result(votes);
        let r2 = self.0[1].vote_result(votes);
        if r1 == r2 {
            return r1;
        }
        if r1 == VoteResult::VoteLost || r2 == VoteResult::VoteLost {
            // If either half has lost, loss is the only possible outcome.
            return VoteResult::VoteLost;
        }
        // One half has won and the other is pending.
        VoteResult::VotePending
    }
}

impl Default for JointConfig {
    fn default() -> (r: Self)
        ensures
            r.0[0].votes@ == Set::<u64>::empty(),
            r.0[1].votes@ == Set::<u64>::empty(),
    {
        JointConfig::new()
    }
}

/// How a joint election follows from the elections of its halves: it is won
/// exactly when both halves have won, lost exactly when either half has
/// lost, whatever the other half's outcome, and pending exactly when a half
/// is pending and neither has lost.
pub proof fn lemma_joint_vote_outcomes(c0: Set<u64>, c1: Set<u64>, votes: Map<u64, bool>)
    ensures
        ({
            let r0 = majority_vote_result(c0, votes);
            let r1 = majority_vote_result(c1, votes);
            let r = joint_vote_result(r0, r1);
            &&& (r == VoteResult::VoteWon) <==> (r0 == VoteResult::VoteWon && r1
                == VoteResult::VoteWon)
            &&& (r == VoteResult::VoteLost) <==> (r0 == VoteResult::VoteLost || r1
                == VoteResult::VoteLost)
            &&& (r == VoteResult::VotePending) <==> ((r0 == VoteResult::VotePending || r1
                == VoteResult::VotePending) && r0 != VoteResult::VoteLost && r1
                != VoteResult::VoteLost)
        }),
{
}

/// Further votes never reverse a decided joint election either.
pub proof fn lemma_joint_vote_result_monotone(
    c0: Set<u64>,
    c1: Set<u64>,
    votes: Map<u64, bool>,
    votes2: Map<u64, bool>,
)
    requires
        c0.finite(),
        c1.finite(),
        extends_votes(votes, votes2),
    ensures
        joint_vote_result(majority_vote_result(c0, votes), majority_vote_result(c1, votes))
            == VoteResult::VoteWon ==> joint_vote_result(
            majority_vote_result(c0, votes2),
            majority_vote_result(c1, votes2),
        ) == VoteResult::VoteWon,
        joint_vote_result(majority_vote_result(c0, votes), majority_vote_result(c1, votes))
            == VoteResult::VoteLost ==> joint_vote_result(
            majority_vote_result(c0, votes2),
            majority_vote_result(c1, votes2),
        ) == VoteResult::VoteLost,
{
    lemma_vote_result_monotone(c0, votes, votes2);
    lemma_vote_result_monotone(c1, votes, votes2);
}

/// A joint configuration with an empty half elects as its other half does.
pub proof fn lemma_joint_vote_with_empty_half(c0: Set<u64>, c1: Set<u64>, votes: Map<u64, bool>)
    requires
        c1.len() == 0,
    ensures
        joint_vote_result(majority_vote_result(c0, votes), majority_vote_result(c1, votes))
            == majority_vote_result(c0, votes),
        joint_vote_result(majority_vote_result(c1, votes), majority_vote_result(c0, votes))
            == majority_vote_result(c0, votes),
{
}

/// A joint configuration with an empty half commits what its other half
/// commits.
pub proof fn lemma_joint_committed_with_empty_half<T: AckedIndexer>(
    l: T,
    c0: Set<u64>,
    c1: Set<u64>,
)
    requires
        c1.len() == 0,
    ensures
        vstd::math::min(committed_index_of(l, c0) as int, committed_index_of(l, c1) as int)
            == committed_index_of(l, c0),
        vstd::math::min(committed_index_of(l, c1) as int, committed_index_of(l, c0) as int)
            == committed_index_of(l, c0),
{
    lemma_committed_index_of(l, c1, u64::MAX);
}

} // verus!
