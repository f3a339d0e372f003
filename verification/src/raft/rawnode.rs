//! A raft node driven step by step by its user.
use std::collections::HashMap;
use vstd::prelude::*;
use crate::raft::quorum::majority::ids_of;
use crate::raft::raft::{Progress, Raft, State};
use crate::raft::raftpb::raft::{ConfChange, Entry, EntryType, EntryView, Message, MessageType};
use crate::raft::raftpb::wire::{conf_change_bytes, encode_conf_change};
use crate::raft::storage::Storage;
use crate::raft::tracker::progress::keys_of;
use crate::raft::tracker::state::StateType;
use crate::raft::util::{
    is_local_message, is_response_message, spec_is_local_message, spec_is_response_message,
};
use crate::raft::util::text::{push_str, text};

verus! {

broadcast use vstd::std_specs::hash::group_hash_axioms, vstd::set::group_set_axioms,
    vstd::seq_lib::group_seq_properties;

/// The errors of stepping a raw node.
#[derive(Debug, PartialEq, Eq)]
pub enum RawRaftError {
    /// A message that a node gives itself arrived over the network.
    StepLocalMsg,
    /// A response came from a peer that is not tracked.
    StepPeerNotFound,
    /// The node refused the message, for the reason given.
    StepUnknown(String),
}

impl RawRaftError {
    /// The message that describes the error.
    pub fn message(&self) -> (r: String)
        ensures
            r@ == match self {
                RawRaftError::StepLocalMsg => "raft: cannot step raft local message"@,
                RawRaftError::StepPeerNotFound => "raft: cannot step as peer not found"@,
                RawRaftError::StepUnknown(s) => "unknown error: "@ + s@,
            },
    {
        match self {
            RawRaftError::StepLocalMsg => text("raft: cannot step raft local message"),
            RawRaftError::StepPeerNotFound => text("raft: cannot step as peer not found"),
            RawRaftError::StepUnknown(s) => {
                let mut r = text("unknown error: ");
                push_str(&mut r, s.as_str());
                r
            },
        }
    }
}

/// The volatile state of a node, useful for logging and debugging: its role
/// and its leader.
pub struct SoftState {
    pub raft_state: StateType,
    pub lead: u64,
}

/// What a node has ready for its user to save, send and apply.
pub struct Ready {}

impl Default for Ready {
    fn default() -> (r: Ready) {
        Ready {  }
    }
}

/// The entry that carries a proposal of `data`.
pub open spec fn proposal_entry(data: Seq<u8>) -> EntryView {
    EntryView { entry_type: EntryType::EntryNormal, term: 0, index: 0, data }
}

/// The entry that carries a proposed configuration change.
pub open spec fn conf_change_entry(cc: &ConfChange) -> EntryView {
    EntryView {
        entry_type: EntryType::EntryConfChange,
        term: 0,
        index: 0,
        data: conf_change_bytes(cc.id, cc.field_type.number(), cc.node_id, cc.context@),
    }
}

/// The entry that proposes `data`.
pub fn new_proposal_entry(data: Vec<u8>) -> (e: Entry)
    ensures
        e@ == proposal_entry(data@),
{
    let mut ent = Entry::new();
    ent.data = data;
    ent
}

/// The entry that proposes the configuration change `cc`.
pub fn new_conf_change_entry(cc: &ConfChange) -> (e: Entry)
    requires
        cc.context@.len() <= u32::MAX,
    ensures
        e@ == conf_change_entry(cc),
{
    let data = encode_conf_change(cc);
    let mut entry = Entry::new();
    entry.entry_type = EntryType::EntryConfChange;
    entry.data = data;
    entry
}

/// A node that is not safe to share between threads; its methods correspond
/// to those of a node.
pub struct RawNode<S: Storage + Clone> {
    pub raft: Raft<S>,
}

impl<S: Storage + Clone> RawNode<S> {
    /// Advances the logical clock by a tick.
    pub fn tick(&mut self)
        ensures
            final(self).raft == old(self).raft,
    {
        self.raft.tick();
    }

    /// Starts an election: hands the node a `MsgHup`.
    pub fn campaign(&mut self) -> (r: Result<(), String>)
        ensures
            r is Ok,
            final(self).raft == old(self).raft,
    {
        let mut msg = Message::new();
        msg.field_type = MessageType::MsgHup;
        self.raft.step(msg)
    }

    /// Proposes that `data` be appended to the log: hands the node a
    /// `MsgProp` from itself carrying one entry with the data.
    pub fn propose(&mut self, data: Vec<u8>) -> (r: Result<(), String>)
        ensures
            r is Ok,
            final(self).raft == old(self).raft,
    {
        let ent = new_proposal_entry(data);
        let mut msg = Message::new();
        msg.field_type = MessageType::MsgProp;
        msg.from = self.raft.id;
        let mut entries: Vec<Entry> = Vec::new();
        entries.push(ent);
        msg.entries = entries;
        self.raft.step(msg)
    }

    /// Proposes the configuration change `cc`: hands the node a `MsgProp`
    /// carrying one entry of kind `EntryConfChange` with the encoded change.
    pub fn propose_conf_change(&mut self, conf_change: &ConfChange) -> (r: Result<(), String>)
        requires
            conf_change.context@.len() <= u32::MAX,
        ensures
            r is Ok,
            final(self).raft == old(self).raft,
    {
        let entry = new_conf_change_entry(conf_change);
        let mut msg = Message::new();
        msg.field_type = MessageType::MsgProp;
        let mut entries: Vec<Entry> = Vec::new();
        entries.push(entry);
        msg.entries = entries;
        self.raft.step(msg)
    }

    /// Advances the node with the message `m`. A message that a node gives
    /// itself is refused; so is a response from a peer that is not tracked.
    pub fn step(&mut self, m: Message) -> (r: Result<(), RawRaftError>)
        ensures
            final(self).raft == old(self).raft,
            spec_is_local_message(m.field_type) ==> r == Err::<(), RawRaftError>(
                RawRaftError::StepLocalMsg,
            ),
            (r == Err::<(), RawRaftError>(RawRaftError::StepLocalMsg)) <==> (m.field_type
                == MessageType::MsgHup || m.field_type == MessageType::MsgBeat),
            m.field_type != MessageType::MsgHup && m.field_type != MessageType::MsgBeat
                && m.field_type != MessageType::MsgAppResp && m.field_type
                != MessageType::MsgVoteResp && m.field_type != MessageType::MsgHeartbeatResp
                ==> r is Ok,
            !spec_is_local_message(m.field_type) && (old(self).raft.prs.progress.0@.contains_key(
                m.from,
            ) || !spec_is_response_message(m.field_type)) ==> r is Ok,
            !spec_is_local_message(m.field_type) && !old(self).raft.prs.progress.0@.contains_key(
                m.from,
            ) && spec_is_response_message(m.field_type) ==> r == Err::<(), RawRaftError>(
                RawRaftError::StepPeerNotFound,
            ),
    {
        // ignore unexpected local message receiving over the network
        if is_local_message(m.field_type) {
            return Err(RawRaftError::StepLocalMsg);
        }
        if self.raft.prs.progress.0.contains_key(&m.from) || !is_response_message(m.field_type) {
            return match self.raft.step(m) {
                Ok(()) => Ok(()),
                Err(err) => Err(RawRaftError::StepUnknown(err)),
            };
        }
        Err(RawRaftError::StepPeerNotFound)
    }

    /// What the node has ready: nothing yet.
    pub fn ready(&self) -> (r: Ready) {
        Ready::default()
    }

    /// Whether the node has anything ready: not yet.
    pub fn has_ready(&self) -> (r: bool)
        ensures
            !r,
    {
        false
    }

    /// The user has saved and applied what `rd` held; what is ready next:
    /// nothing yet.
    pub fn advance(&self, rd: &Ready) -> (r: Ready) {
        Ready::default()
    }

    /// The progress of each peer, if this node is the leader; otherwise
    /// nothing.
    pub fn get_progress(&self) -> (r: HashMap<u64, Progress>)
        ensures
            self.raft.state != State::Leader ==> r@ == Map::<u64, Progress>::empty(),
            self.raft.state == State::Leader ==> {
                &&& r@.dom() == self.raft.prs.progress.0@.dom()
                &&& forall|id: u64|
                    #[trigger] r@.contains_key(id) ==> r@[id] == (Progress {
                        _match: self.raft.prs.progress.0@[id]._match,
                        next: self.raft.prs.progress.0@[id].next,
                    })
            },
    {
        let mut prs: HashMap<u64, Progress> = HashMap::new();
        if self.raft.state == State::Leader {
            let m = &self.raft.prs.progress.0;
            let ids = keys_of(m);
            let mut i: usize = 0;
            while i < ids.len()
                invariant
                    i <= ids@.len(),
                    ids@.to_set() == m@.dom(),
                    prs@.dom() == ids@.take(i as int).to_set(),
                    forall|id: u64|
                        #[trigger] prs@.contains_key(id) ==> m@.contains_key(id) && prs@[id] == (
                        Progress { _match: m@[id]._match, next: m@[id].next }),
                decreases ids@.len() - i,
            {
                let id = ids[i];
                proof {
                    assert(ids@.to_set().contains(id));
                    assert(m@.contains_key(id));
                }
                match m.get(&id) {
                    Some(p) => {
                        prs.insert(id, Progress { _match: p._match, next: p.next });
                    },
                    None => {},
                }
                proof {
                    assert(ids@.take(i as int + 1) =~= ids@.take(i as int).push(id));
                    assert(prs@.dom() =~= ids@.take(i as int + 1).to_set());
                }
                i = i + 1;
            }
            proof {
                assert(ids@.take(ids@.len() as int) =~= ids@);
            }
        } else {
            proof {
                assert(prs@ =~= Map::<u64, Progress>::empty());
            }
        }
        prs
    }

    /// Asks to transfer leadership to `transferee`: hands the node a
    /// `MsgTransferLeader` from it.
    pub fn transfer_leader(&mut self, transferee: u64)
        ensures
            final(self).raft == old(self).raft,
    {
        let mut msg = Message::new();
        msg.field_type = MessageType::MsgTransferLeader;
        msg.from = transferee;
        let _ = self.raft.step(msg);
    }
}

} // verus!
