//! Turning a configuration state back into the changes that produce it.
use vstd::prelude::*;
use crate::raft::raftpb::raft::{ConfChangeSingle, ConfChangeType, ConfState};

verus! {

/// One change of kind `t` for each of `ids`, in order.
pub open spec fn changes(ids: Seq<u64>, t: ConfChangeType) -> Seq<ConfChangeSingle> {
    ids.map_values(|id: u64| ConfChangeSingle { field_type: t, node_id: id })
}

/// The changes for a list of ids are one change of the given kind per id,
/// in the order of the list: as many changes as ids, the `k`-th for the
/// `k`-th id.
pub proof fn lemma_changes_one_per_id(ids: Seq<u64>, t: ConfChangeType)
    ensures
        changes(ids, t).len() == ids.len(),
        forall|k: int|
            0 <= k < ids.len() ==> (#[trigger] changes(ids, t)[k]).node_id == ids[k]
                && changes(ids, t)[k].field_type == t,
{
}

fn push_changes(v: &mut Vec<ConfChangeSingle>, ids: &Vec<u64>, t: ConfChangeType)
    ensures
        final(v)@ == old(v)@ + changes(ids@, t),
{
    let mut i: usize = 0;
    while i < ids.len()
        invariant
            i <= ids@.len(),
            v@ == old(v)@ + changes(ids@.take(i as int), t),
        decreases ids@.len() - i,
    {
        v.push(ConfChangeSingle { field_type: t, node_id: ids[i] });
        proof {
            assert(v@ =~= old(v)@ + changes(ids@.take(i as int + 1), t));
        }
        i = i + 1;
    }
    proof {
        assert(ids@.take(ids@.len() as int) =~= ids@);
    }
}

/// Two lists of changes for a configuration state `cs`: the first, applied
/// to an empty configuration, builds the one that becomes the outgoing
/// half, by adding its voters one by one; the second, applied after it,
/// removes those voters again and adds the incoming voters, the learners,
/// and the voters that become learners when the joint state is left, so
/// that the result is `cs`.
pub fn to_conf_change_single(cs: ConfState) -> (r: (Vec<ConfChangeSingle>, Vec<ConfChangeSingle>))
    ensures
        r.0@ == changes(cs.voters_outgoing@, ConfChangeType::ConfChangeAddNode),
        r.0@.len() == cs.voters_outgoing@.len(),
        r.1@.len() == cs.voters_outgoing@.len() + cs.voters@.len() + cs.learners@.len()
            + cs.learners_next@.len(),
        forall|k: int|
            0 <= k < cs.voters@.len() ==> (#[trigger] r.1@[cs.voters_outgoing@.len() + k]) == (
            ConfChangeSingle { field_type: ConfChangeType::ConfChangeAddNode, node_id: cs.voters@[k] }),
        forall|k: int|
            0 <= k < cs.voters_outgoing@.len() ==> (#[trigger] r.0@[k]) == (ConfChangeSingle {
                field_type: ConfChangeType::ConfChangeAddNode,
                node_id: cs.voters_outgoing@[k],
            }),
        r.1@ == changes(cs.voters_outgoing@, ConfChangeType::ConfChangeRemoveNode) + changes(
            cs.voters@,
            ConfChangeType::ConfChangeAddNode,
        ) + changes(cs.learners@, ConfChangeType::ConfChangeAddLearnerNode) + changes(
            cs.learners_next@,
            ConfChangeType::ConfChangeAddLearnerNode,
        ),
{
    let mut out: Vec<ConfChangeSingle> = Vec::new();
    let mut _in: Vec<ConfChangeSingle> = Vec::new();
    // If there are outgoing voters, first add them one by one so that the
    // (non-joint) config has them all.
    push_changes(&mut out, &cs.voters_outgoing, ConfChangeType::ConfChangeAddNode);
    // Then remove all of the outgoing voters again.
    push_changes(&mut _in, &cs.voters_outgoing, ConfChangeType::ConfChangeRemoveNode);
    // Then add the incoming voters and learners.
    push_changes(&mut _in, &cs.voters, ConfChangeType::ConfChangeAddNode);
    push_changes(&mut _in, &cs.learners, ConfChangeType::ConfChangeAddLearnerNode);
    // Same for the learners next: nodes that are to be learners but are
    // still voters in the outgoing half.
    push_changes(&mut _in, &cs.learners_next, ConfChangeType::ConfChangeAddLearnerNode);
    proof {
        assert(out@ =~= changes(cs.voters_outgoing@, ConfChangeType::ConfChangeAddNode));
        lemma_changes_one_per_id(cs.voters_outgoing@, ConfChangeType::ConfChangeAddNode);
        lemma_changes_one_per_id(cs.voters_outgoing@, ConfChangeType::ConfChangeRemoveNode);
        lemma_changes_one_per_id(cs.voters@, ConfChangeType::ConfChangeAddNode);
        lemma_changes_one_per_id(cs.learners@, ConfChangeType::ConfChangeAddLearnerNode);
        lemma_changes_one_per_id(cs.learners_next@, ConfChangeType::ConfChangeAddLearnerNode);
    }
    (out, _in)
}

} // verus!
