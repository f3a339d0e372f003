pub mod inflights;
pub mod progress;
pub mod state;

use std::collections::{HashMap, HashSet};
use vstd::prelude::*;
use crate::raft::quorum::counting::{sorted_ids, strictly_increasing};
use crate::raft::quorum::joint::{joint_text, JointConfig};
use crate::raft::quorum::majority::{ids_of, majority_text, sort_ids, MajorityConfig};
use crate::raft::raftpb::raft::ConfState;
use crate::raft::tracker::progress::ProgressMap;
use crate::raft::util::text::push_str;

verus! {

broadcast use vstd::std_specs::hash::group_hash_axioms, vstd::set::group_set_axioms;

/// The configuration that a progress tracker follows.
pub struct Config {
    pub voters: JointConfig,
    /// Whether a joint configuration is left automatically once that is
    /// possible, rather than when the application asks for it.
    pub auto_leave: bool,
    /// The learners. No learner is a voter in either half of the joint
    /// configuration.
    pub learners: HashSet<u64>,
    /// The voters that become learners when the joint configuration is left.
    /// A voter that is demoted cannot be a learner while it is still a voter
    /// of the outgoing half, so it waits here.
    pub learners_next: HashSet<u64>,
}

/// The textual form of a configuration.
pub open spec fn config_text(c: &Config) -> Seq<char> {
    "voters="@ + joint_text(c.voters.0[0].votes@, c.voters.0[1].votes@) + (if c.learners@.len()
        > 0 {
        " learners="@ + majority_text(c.learners@)
    } else {
        Seq::empty()
    }) + (if c.learners_next@.len() > 0 {
        " learners_next="@ + majority_text(c.learners_next@)
    } else {
        Seq::empty()
    }) + (if c.auto_leave {
        " auto_leave"@
    } else {
        Seq::empty()
    })
}

impl Config {
    /// No learner is a voter of either half.
    pub open spec fn wf(&self) -> bool {
        self.learners@.disjoint(self.voters.0[0].votes@.union(self.voters.0[1].votes@))
    }

    /// The configuration as text, such as `voters=(1,2)&&(3) learners=(4)`.
    pub fn to_string(&self) -> (r: String)
        ensures
            r@ == config_text(self),
    {
        let mut s = String::new();
        push_str(&mut s, "voters=");
        let v = self.voters.to_string();
        push_str(&mut s, v.as_str());
        let ghost a = s@;
        if self.learners.len() > 0 {
            push_str(&mut s, " learners=");
            let t = MajorityConfig::from_ids(&ids_of(&self.learners)).to_string();
            push_str(&mut s, t.as_str());
        }
        let ghost b = s@;
        assert(b =~= a + (if self.learners@.len() > 0 {
            " learners="@ + majority_text(self.learners@)
        } else {
            Seq::<char>::empty()
        }));
        if self.learners_next.len() > 0 {
            push_str(&mut s, " learners_next=");
            let t = MajorityConfig::from_ids(&ids_of(&self.learners_next)).to_string();
            push_str(&mut s, t.as_str());
        }
        let ghost c = s@;
        assert(c =~= b + (if self.learners_next@.len() > 0 {
            " learners_next="@ + majority_text(self.learners_next@)
        } else {
            Seq::<char>::empty()
        }));
        if self.auto_leave {
            push_str(&mut s, " auto_leave");
        }
        proof {
            assert(s@ =~= config_text(self));
        }
        s
    }
}

impl Default for Config {
    fn default() -> (r: Self)
        ensures
            r.voters.0[0].votes@ == Set::<u64>::empty(),
            r.voters.0[1].votes@ == Set::<u64>::empty(),
            !r.auto_leave,
            r.learners@ == Set::<u64>::empty(),
            r.learners_next@ == Set::<u64>::empty(),
    {
        Config {
            voters: JointConfig::new(),
            auto_leave: false,
            learners: HashSet::new(),
            learners_next: HashSet::new(),
        }
    }
}

/// Tracks the active configuration and what is known of each node in it, in
/// particular the index each has matched, from which the committed index
/// follows.
pub struct ProgressTracker {
    pub config: Config,
    pub progress: ProgressMap,
    pub votes: HashSet<u64>,
    pub max_inflight: isize,
}

impl ProgressTracker {
    pub fn new(max_inflight: isize) -> (p: ProgressTracker)
        ensures
            p.config.wf(),
            p.config.voters.0[0].votes@ == Set::<u64>::empty(),
            p.config.voters.0[1].votes@ == Set::<u64>::empty(),
            !p.config.auto_leave,
            p.config.learners@ == Set::<u64>::empty(),
            p.config.learners_next@ == Set::<u64>::empty(),
            p.progress.0@ == Map::<u64, progress::Progress>::empty(),
            p.votes@ == Set::<u64>::empty(),
            p.max_inflight == max_inflight,
    {
        let p = ProgressTracker {
            config: Config::default(),
            progress: ProgressMap(HashMap::new()),
            votes: HashSet::new(),
            max_inflight,
        };
        proof {
            assert(p.config.learners@.disjoint(
                p.config.voters.0[0].votes@.union(p.config.voters.0[1].votes@),
            ));
        }
        p
    }

    /// The active configuration as a `ConfState`: each group of ids in
    /// increasing order.
    pub fn config_state(&self) -> (c: ConfState)
        ensures
            c.voters@ == sorted_ids(self.config.voters.0[0].votes@),
            c.voters_outgoing@ == sorted_ids(self.config.voters.0[1].votes@),
            c.learners@ == sorted_ids(self.config.learners@),
            c.learners_next@ == sorted_ids(self.config.learners_next@),
            c.auto_leave == self.config.auto_leave,
            strictly_increasing(c.voters@),
            c.voters@.to_set() == self.config.voters.0[0].votes@,
            strictly_increasing(c.voters_outgoing@),
            c.voters_outgoing@.to_set() == self.config.voters.0[1].votes@,
            strictly_increasing(c.learners@),
            c.learners@.to_set() == self.config.learners@,
            strictly_increasing(c.learners_next@),
            c.learners_next@.to_set() == self.config.learners_next@,
    {
        let mut conf_state = ConfState::new();
        conf_state.voters = self.config.voters.0[0].as_slice();
        conf_state.voters_outgoing = self.config.voters.0[1].as_slice();
        conf_state.learners = MajorityConfig::from_ids(&ids_of(&self.config.learners)).as_slice();
        conf_state.learners_next = MajorityConfig::from_ids(
            &ids_of(&self.config.learners_next),
        ).as_slice();
        conf_state.auto_leave = self.config.auto_leave;
        conf_state
    }
}

} // verus!
