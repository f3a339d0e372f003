//! Small predicates over messages and hard states.
pub mod text;

use vstd::prelude::*;
use crate::raft::raftpb::raft::{views, Entry, EntryView, HardState, MessageType};
use crate::raft::raftpb::wire::{entry_size, max_data_len, size_of_entry};

verus! {

/// Whether a message of this kind is one that a node gives itself and that
/// never travels over the network.
pub open spec fn spec_is_local_message(t: MessageType) -> bool {
    t == MessageType::MsgHup || t == MessageType::MsgBeat
}

/// Whether a message of this kind answers a request.
pub open spec fn spec_is_response_message(t: MessageType) -> bool {
    t == MessageType::MsgAppResp || t == MessageType::MsgVoteResp || t
        == MessageType::MsgHeartbeatResp
}

/// Of all kinds of messages, exactly the two that a node gives itself, the
/// election trigger `MsgHup` and the heartbeat trigger `MsgBeat`, are local;
/// exactly the three answers to appends, votes and heartbeats are responses.
/// Every message that travels between nodes, such as `MsgApp`, `MsgVote`,
/// `MsgHeartbeat` or `MsgProp`, is not local.
pub proof fn lemma_message_kinds(t: MessageType)
    ensures
        spec_is_local_message(t) <==> (t == MessageType::MsgHup || t == MessageType::MsgBeat),
        spec_is_response_message(t) <==> (t == MessageType::MsgAppResp || t
            == MessageType::MsgVoteResp || t == MessageType::MsgHeartbeatResp),
        !(spec_is_local_message(t) && spec_is_response_message(t)),
{
}

pub fn is_local_message(msg_type: MessageType) -> (r: bool)
    ensures
        r == spec_is_local_message(msg_type),
{
    msg_type == MessageType::MsgHup || msg_type == MessageType::MsgBeat
}

pub fn is_response_message(msg_type: MessageType) -> (r: bool)
    ensures
        r == spec_is_response_message(msg_type),
{
    msg_type == MessageType::MsgAppResp || msg_type == MessageType::MsgVoteResp || msg_type
        == MessageType::MsgHeartbeatResp
}

/// Whether two hard states are equal: same term, same vote and same commit
/// index.
pub fn is_hard_state_equal(a: &HardState, b: &HardState) -> (r: bool)
    ensures
        r == (a.term == b.term && a.vote == b.vote && a.commit == b.commit),
{
    a.term == b.term && a.vote == b.vote && a.commit == b.commit
}

/// The total size of the first `k` entries of `e`.
pub open spec fn prefix_size(e: Seq<EntryView>, k: int) -> nat
    decreases k,
{
    if k <= 0 || k > e.len() {
        0
    } else {
        prefix_size(e, k - 1) + entry_size(e[k - 1])
    }
}

/// `k` is how many of the entries `e` fit in `max_size` bytes: at least one,
/// if there is any, and then as many as keep the total within `max_size`.
pub open spec fn limit_len_ok(e: Seq<EntryView>, max_size: u64, k: nat) -> bool {
    if e.len() == 0 {
        k == 0
    } else {
        &&& 1 <= k <= e.len()
        &&& k >= 2 ==> prefix_size(e, k as int) <= max_size
        &&& k < e.len() ==> prefix_size(e, k as int + 1) > max_size
    }
}

/// Whether every payload of `e` is small enough for its size to be computed.
pub open spec fn sizable(e: Seq<EntryView>) -> bool {
    forall|k: int| 0 <= k < e.len() ==> (#[trigger] e[k]).data.len() <= max_data_len()
}

/// The size of a prefix grows with its length.
pub proof fn lemma_prefix_size_monotone(e: Seq<EntryView>, j: int, k: int)
    requires
        0 <= j <= k <= e.len(),
    ensures
        prefix_size(e, j) <= prefix_size(e, k),
    decreases k - j,
{
    if j < k {
        lemma_prefix_size_monotone(e, j, k - 1);
    }
}

/// Where all of `e` fits in `max_size` bytes, the count that
/// `limit_len_ok` allows is all of it.
pub proof fn lemma_limit_len_all(e: Seq<EntryView>, max_size: u64, k: nat)
    requires
        limit_len_ok(e, max_size, k),
        prefix_size(e, e.len() as int) <= max_size,
    ensures
        k == e.len(),
{
    if k < e.len() {
        lemma_prefix_size_monotone(e, k as int + 1, e.len() as int);
    }
}

/// The leading entries of `ents` that fit in `max_size` bytes, and at least
/// the first one; all of them where their total fits.
pub fn limit_size(ents: Vec<Entry>, max_size: u64) -> (r: Vec<Entry>)
    requires
        sizable(views(ents@)),
    ensures
        limit_len_ok(views(ents@), max_size, r@.len()),
        views(r@) == views(ents@).take(r@.len() as int),
        prefix_size(views(ents@), ents@.len() as int) <= max_size ==> r@.len() == ents@.len(),
{
    if ents.len() == 0 {
        proof {
            assert(views(ents@).len() == 0);
        }
        return ents;
    }
    let ghost e = views(ents@);
    assert(e[0] == ents@[0]@);
    let mut size: u64 = size_of_entry(&ents[0]);
    proof {
        reveal_with_fuel(prefix_size, 2);
    }
    let mut limit: usize = 1;
    while limit < ents.len()
        invariant_except_break
            e == views(ents@),
            sizable(e),
            1 <= limit <= ents@.len(),
            size == prefix_size(e, limit as int),
            limit >= 2 ==> prefix_size(e, limit as int) <= max_size,
        ensures
            1 <= limit <= ents@.len(),
            limit >= 2 ==> prefix_size(e, limit as int) <= max_size,
            limit < ents@.len() ==> prefix_size(e, limit as int + 1) > max_size,
        decreases ents@.len() - limit,
    {
        assert(e[limit as int] == ents@[limit as int]@);
        let s = size_of_entry(&ents[limit]);
        assert(prefix_size(e, limit as int + 1) == prefix_size(e, limit as int) + s);
        if size > max_size || s > max_size - size {
            break;
        }
        size = size + s;
        limit = limit + 1;
    }
    let mut ents = ents;
    ents.truncate(limit);
    proof {
        assert(views(ents@) =~= e.take(limit as int));
        if prefix_size(e, e.len() as int) <= max_size {
            lemma_limit_len_all(e, max_size, limit as nat);
        }
    }
    ents
}

} // verus!
