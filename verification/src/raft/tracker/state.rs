//! The states in which a leader tracks a follower.
use vstd::prelude::*;
use crate::raft::util::text::push_str;

verus! {

/// How the leader replicates to a follower.
#[derive(Clone, Copy, Debug, PartialEq, Eq, Structural)]
pub enum StateType {
    /// The follower's last index is not known; the leader probes it with at
    /// most one append per heartbeat interval.
    StateProbe,
    /// The follower is known to be in step; the leader sends entries eagerly.
    StateReplicate,
    /// The follower needs entries that the leader no longer has; it is sent a
    /// snapshot.
    StateSnapshot,
}

/// The name of a state.
pub open spec fn state_text(s: StateType) -> Seq<char> {
    match s {
        StateType::StateProbe => "StateProbe"@,
        StateType::StateReplicate => "StateReplicate"@,
        StateType::StateSnapshot => "StateSnapshot"@,
    }
}

/// Appends the name of a state.
pub fn push_state(s: &mut String, st: StateType)
    ensures
        final(s)@ == old(s)@ + state_text(st),
{
    match st {
        StateType::StateProbe => push_str(s, "StateProbe"),
        StateType::StateReplicate => push_str(s, "StateReplicate"),
        StateType::StateSnapshot => push_str(s, "StateSnapshot"),
    }
}

impl StateType {
    /// The name of the state.
    pub fn to_string(&self) -> (r: String)
        ensures
            r@ == state_text(*self),
    {
        let mut s = String::new();
        push_state(&mut s, *self);
        proof {
            assert(s@ =~= state_text(*self));
        }
        s
    }
}

} // verus!
