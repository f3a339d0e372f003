//! Changes of configuration.
use vstd::prelude::*;
use crate::raft::quorum::joint::JointConfig;
use crate::raft::quorum::majority::MajorityConfig;
use crate::raft::raftpb::raft::{ConfChangeSingle, ConfChangeType};
use crate::raft::tracker::{Config, ProgressTracker};
use crate::raft::util::text::{decimal, push_char, push_decimal, push_str};

verus! {

/// Carries out configuration changes on a progress tracker, checking them
/// before they take effect.
pub struct Changer {
    pub tracker: ProgressTracker,
    pub last_index: u64,
}

/// Whether the configuration is joint: its outgoing half has voters.
pub fn join(cfg: Config) -> (r: bool)
    ensures
        r == (cfg.voters.0[1].votes@.len() != 0),
{
    outgoing(&cfg.voters).votes.len() != 0
}

/// The incoming half of a joint configuration.
pub fn incoming(voters: &JointConfig) -> (r: &MajorityConfig)
    ensures
        r == &voters.0[0],
{
    &voters.0[0]
}

/// The outgoing half of a joint configuration.
pub fn outgoing(voters: &JointConfig) -> (r: &MajorityConfig)
    ensures
        r == &voters.0[1],
{
    &voters.0[1]
}

/// Text for the changes that the outgoing half goes through: none of them
/// is written out, so it is empty whatever `ccs` holds.
pub(crate) fn outgoing_ptr(ccs: Vec<ConfChangeSingle>) -> (r: String)
    ensures
        r@ == Seq::<char>::empty(),
{
    let buf = String::new();
    buf
}

/// The name of a kind of change.
pub open spec fn change_type_text(t: ConfChangeType) -> Seq<char> {
    match t {
        ConfChangeType::ConfChangeAddNode => "ConfChangeAddNode"@,
        ConfChangeType::ConfChangeRemoveNode => "ConfChangeRemoveNode"@,
        ConfChangeType::ConfChangeUpdateNode => "ConfChangeUpdateNode"@,
        ConfChangeType::ConfChangeAddLearnerNode => "ConfChangeAddLearnerNode"@,
    }
}

fn push_change_type(s: &mut String, t: ConfChangeType)
    ensures
        final(s)@ == old(s)@ + change_type_text(t),
{
    match t {
        ConfChangeType::ConfChangeAddNode => push_str(s, "ConfChangeAddNode"),
        ConfChangeType::ConfChangeRemoveNode => push_str(s, "ConfChangeRemoveNode"),
        ConfChangeType::ConfChangeUpdateNode => push_str(s, "ConfChangeUpdateNode"),
        ConfChangeType::ConfChangeAddLearnerNode => push_str(s, "ConfChangeAddLearnerNode"),
    }
}

/// One change as text: its kind, then the node id in parentheses.
pub open spec fn change_text(cc: ConfChangeSingle) -> Seq<char> {
    change_type_text(cc.field_type) + seq!['('] + decimal(cc.node_id as nat) + seq![')']
}

/// The changes as text, separated by spaces.
pub open spec fn changes_text(ccs: Seq<ConfChangeSingle>) -> Seq<char>
    decreases ccs.len(),
{
    if ccs.len() == 0 {
        Seq::empty()
    } else if ccs.len() == 1 {
        change_text(ccs[0])
    } else {
        changes_text(ccs.drop_last()) + seq![' '] + change_text(ccs.last())
    }
}

/// The changes as text, such as `ConfChangeAddNode(1) ConfChangeRemoveNode(2)`.
pub fn describe(ccs: Vec<ConfChangeSingle>) -> (r: String)
    ensures
        r@ == changes_text(ccs@),
{
    let mut buf = String::new();
    let mut i: usize = 0;
    while i < ccs.len()
        invariant
            i <= ccs@.len(),
            buf@ == changes_text(ccs@.take(i as int)),
        decreases ccs@.len() - i,
    {
        let cc = ccs[i];
        let ghost before = buf@;
        // Every change leaves text, so the buffer is empty only before the
        // first one.
        if i > 0 {
            push_char(&mut buf, ' ');
        }
        push_change_type(&mut buf, cc.field_type);
        push_char(&mut buf, '(');
        push_decimal(&mut buf, cc.node_id);
        push_char(&mut buf, ')');
        proof {
            let t = ccs@.take(i as int + 1);
            assert(t.drop_last() =~= ccs@.take(i as int));
            assert(t.last() == cc);
            if i == 0 {
                assert(before =~= Seq::<char>::empty());
            } else {
                lemma_changes_text_nonempty(ccs@.take(i as int));
            }
            assert(buf@ =~= changes_text(t));
        }
        i = i + 1;
    }
    proof {
        assert(ccs@.take(ccs@.len() as int) =~= ccs@);
    }
    buf
}

proof fn lemma_changes_text_nonempty(ccs: Seq<ConfChangeSingle>)
    requires
        ccs.len() > 0,
    ensures
        changes_text(ccs).len() > 0,
    decreases ccs.len(),
{
    if ccs.len() > 1 {
        lemma_changes_text_nonempty(ccs.drop_last());
    }
}

} // verus!
