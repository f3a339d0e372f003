//! The messages that raft nodes exchange and persist: log entries, snapshots,
//! hard state, configuration state and configuration changes.
use vstd::prelude::*;

verus! {

/// The kind of a log entry.
#[derive(Clone, Copy, Debug, PartialEq, Eq, Structural)]
pub enum EntryType {
    EntryNormal,
    EntryConfChange,
    EntryConfChangeV2,
}

impl EntryType {
    /// The number that stands for the kind on the wire.
    pub open spec fn number(self) -> u64 {
        match self {
            EntryType::EntryNormal => 0,
            EntryType::EntryConfChange => 1,
            EntryType::EntryConfChangeV2 => 2,
        }
    }

    pub fn value(&self) -> (r: u64)
        ensures
            r == self.number(),
    {
        match self {
            EntryType::EntryNormal => 0,
            EntryType::EntryConfChange => 1,
            EntryType::EntryConfChangeV2 => 2,
        }
    }
}

/// The mathematical value of a log entry.
pub struct EntryView {
    pub entry_type: EntryType,
    pub term: u64,
    pub index: u64,
    pub data: Seq<u8>,
}

/// A log entry: its position `index`, the `term` in which it was created and
/// its payload.
#[derive(Debug, PartialEq, Eq)]
pub struct Entry {
    pub entry_type: EntryType,
    pub term: u64,
    pub index: u64,
    pub data: Vec<u8>,
}

impl View for Entry {
    type V = EntryView;

    open spec fn view(&self) -> EntryView {
        EntryView { entry_type: self.entry_type, term: self.term, index: self.index, data: self.data@ }
    }
}

/// The views of a sequence of entries.
pub open spec fn views(s: Seq<Entry>) -> Seq<EntryView> {
    s.map_values(|e: Entry| e@)
}

/// The view of the empty entry: index 0, term 0, no payload.
pub open spec fn empty_entry_view() -> EntryView {
    EntryView { entry_type: EntryType::EntryNormal, term: 0, index: 0, data: Seq::empty() }
}

impl Entry {
    pub fn new() -> (e: Entry)
        ensures
            e@ == empty_entry_view(),
    {
        Entry { entry_type: EntryType::EntryNormal, term: 0, index: 0, data: Vec::new() }
    }
}

impl Clone for Entry {
    fn clone(&self) -> (r: Self)
        ensures
            r@ == self@,
    {
        let data = self.data.clone();
        proof {
            assert(data@ =~= self.data@);
        }
        Entry { entry_type: self.entry_type, term: self.term, index: self.index, data }
    }
}

/// A copy of a slice of entries.
pub fn copy_entries(ents: &[Entry]) -> (r: Vec<Entry>)
    ensures
        views(r@) == views(ents@),
{
    let mut r: Vec<Entry> = Vec::new();
    let mut i: usize = 0;
    while i < ents.len()
        invariant
            i <= ents@.len(),
            r@.len() == i,
            forall|k: int| 0 <= k < i ==> (#[trigger] r@[k])@ == ents@[k]@,
        decreases ents@.len() - i,
    {
        let c = ents[i].clone();
        r.push(c);
        i = i + 1;
    }
    proof {
        assert(views(r@) =~= views(ents@));
    }
    r
}

impl Default for Entry {
    fn default() -> (r: Self)
        ensures
            r@ == empty_entry_view(),
    {
        Entry::new()
    }
}

/// The persistent state of a raft node: its term, its vote and its commit index.
#[derive(Clone, Copy, Debug, PartialEq, Eq, Structural)]
pub struct HardState {
    pub term: u64,
    pub vote: u64,
    pub commit: u64,
}

impl Default for HardState {
    fn default() -> (r: Self)
        ensures
            r.term == 0 && r.vote == 0 && r.commit == 0,
    {
        HardState { term: 0, vote: 0, commit: 0 }
    }
}

/// The mathematical value of a configuration state.
pub struct ConfStateView {
    pub voters: Seq<u64>,
    pub learners: Seq<u64>,
    pub voters_outgoing: Seq<u64>,
    pub learners_next: Seq<u64>,
    pub auto_leave: bool,
}

/// The membership of a raft group: the voters of the incoming and of the
/// outgoing configuration, the learners, and the voters that become learners
/// when the joint configuration is left.
#[derive(Debug, PartialEq, Eq)]
pub struct ConfState {
    pub voters: Vec<u64>,
    pub learners: Vec<u64>,
    pub voters_outgoing: Vec<u64>,
    pub learners_next: Vec<u64>,
    pub auto_leave: bool,
}

impl View for ConfState {
    type V = ConfStateView;

    open spec fn view(&self) -> ConfStateView {
        ConfStateView {
            voters: self.voters@,
            learners: self.learners@,
            voters_outgoing: self.voters_outgoing@,
            learners_next: self.learners_next@,
            auto_leave: self.auto_leave,
        }
    }
}

/// The view of the empty configuration state.
pub open spec fn empty_conf_state_view() -> ConfStateView {
    ConfStateView {
        voters: Seq::empty(),
        learners: Seq::empty(),
        voters_outgoing: Seq::empty(),
        learners_next: Seq::empty(),
        auto_leave: false,
    }
}

/// A copy of a vector of node ids.
pub fn copy_ids(v: &Vec<u64>) -> (r: Vec<u64>)
    ensures
        r@ == v@,
{
    let r = v.clone();
    proof {
        assert(r@ =~= v@);
    }
    r
}

impl ConfState {
    pub fn new() -> (c: ConfState)
        ensures
            c@ == empty_conf_state_view(),
    {
        ConfState {
            voters: Vec::new(),
            learners: Vec::new(),
            voters_outgoing: Vec::new(),
            learners_next: Vec::new(),
            auto_leave: false,
        }
    }
}

impl Clone for ConfState {
    fn clone(&self) -> (r: Self)
        ensures
            r@ == self@,
    {
        ConfState {
            voters: copy_ids(&self.voters),
            learners: copy_ids(&self.learners),
            voters_outgoing: copy_ids(&self.voters_outgoing),
            learners_next: copy_ids(&self.learners_next),
            auto_leave: self.auto_leave,
        }
    }
}

impl Default for ConfState {
    fn default() -> (r: Self)
        ensures
            r@ == empty_conf_state_view(),
    {
        ConfState::new()
    }
}

/// The mathematical value of a snapshot's metadata.
pub struct SnapshotMetadataView {
    pub conf_state: ConfStateView,
    pub index: u64,
    pub term: u64,
}

/// What a snapshot covers: the configuration at its index, the index of the
/// last entry that it holds and that entry's term.
#[derive(Debug, PartialEq, Eq)]
pub struct SnapshotMetadata {
    pub conf_state: ConfState,
    pub index: u64,
    pub term: u64,
}

impl View for SnapshotMetadata {
    type V = SnapshotMetadataView;

    open spec fn view(&self) -> SnapshotMetadataView {
        SnapshotMetadataView { conf_state: self.conf_state@, index: self.index, term: self.term }
    }
}

impl Clone for SnapshotMetadata {
    fn clone(&self) -> (r: Self)
        ensures
            r@ == self@,
    {
        SnapshotMetadata { conf_state: self.conf_state.clone(), index: self.index, term: self.term }
    }
}

/// The mathematical value of a snapshot.
pub struct SnapshotView {
    pub data: Seq<u8>,
    pub metadata: SnapshotMetadataView,
}

/// A snapshot of the state machine, with its metadata.
#[derive(Debug, PartialEq, Eq)]
pub struct Snapshot {
    pub data: Vec<u8>,
    pub metadata: SnapshotMetadata,
}

impl View for Snapshot {
    type V = SnapshotView;

    open spec fn view(&self) -> SnapshotView {
        SnapshotView { data: self.data@, metadata: self.metadata@ }
    }
}

/// The view of the empty snapshot: index 0, term 0, empty configuration.
pub open spec fn empty_snapshot_view() -> SnapshotView {
    SnapshotView {
        data: Seq::empty(),
        metadata: SnapshotMetadataView { conf_state: empty_conf_state_view(), index: 0, term: 0 },
    }
}

impl Snapshot {
    pub fn new() -> (s: Snapshot)
        ensures
            s@ == empty_snapshot_view(),
    {
        Snapshot {
            data: Vec::new(),
            metadata: SnapshotMetadata { conf_state: ConfState::new(), index: 0, term: 0 },
        }
    }
}

impl Clone for Snapshot {
    fn clone(&self) -> (r: Self)
        ensures
            r@ == self@,
    {
        let data = self.data.clone();
        proof {
            assert(data@ =~= self.data@);
        }
        Snapshot { data, metadata: self.metadata.clone() }
    }
}

impl Default for Snapshot {
    fn default() -> (r: Self)
        ensures
            r@ == empty_snapshot_view(),
    {
        Snapshot::new()
    }
}

/// The kinds of message that raft nodes exchange.
#[derive(Clone, Copy, Debug, PartialEq, Eq, Structural)]
pub enum MessageType {
    MsgHup,
    MsgBeat,
    MsgProp,
    MsgApp,
    MsgAppResp,
    MsgVote,
    MsgVoteResp,
    MsgSnap,
    MsgHeartbeat,
    MsgHeartbeatResp,
    MsgUnreachable,
    MsgSnapStatus,
    MsgCheckQuorum,
    MsgTransferLeader,
    MsgTimeoutNow,
    MsgReadIndex,
    MsgReadIndexResp,
    MsgPreVote,
    MsgPreVoteResp,
}

/// A message between raft nodes.
#[derive(Debug, PartialEq, Eq)]
pub struct Message {
    pub field_type: MessageType,
    pub to: u64,
    pub from: u64,
    pub term: u64,
    pub log_term: u64,
    pub index: u64,
    pub entries: Vec<Entry>,
    pub commit: u64,
    pub snapshot: Snapshot,
    pub reject: bool,
    pub reject_hint: u64,
    pub context: Vec<u8>,
}

impl Message {
    /// A message of kind `MsgHup` with every other field at its default.
    pub fn new() -> (m: Message)
        ensures
            m.field_type == MessageType::MsgHup,
            m.to == 0 && m.from == 0 && m.term == 0 && m.log_term == 0,
            m.index == 0 && m.commit == 0 && m.reject_hint == 0 && !m.reject,
            m.entries@.len() == 0,
            m.snapshot@ == empty_snapshot_view(),
            m.context@.len() == 0,
    {
        Message {
            field_type: MessageType::MsgHup,
            to: 0,
            from: 0,
            term: 0,
            log_term: 0,
            index: 0,
            entries: Vec::new(),
            commit: 0,
            snapshot: Snapshot::new(),
            reject: false,
            reject_hint: 0,
            context: Vec::new(),
        }
    }
}

/// The kind of a configuration change.
#[derive(Clone, Copy, Debug, PartialEq, Eq, Structural)]
pub enum ConfChangeType {
    ConfChangeAddNode,
    ConfChangeRemoveNode,
    ConfChangeUpdateNode,
    ConfChangeAddLearnerNode,
}

impl ConfChangeType {
    /// The number that stands for the kind on the wire.
    pub open spec fn number(self) -> u64 {
        match self {
            ConfChangeType::ConfChangeAddNode => 0,
            ConfChangeType::ConfChangeRemoveNode => 1,
            ConfChangeType::ConfChangeUpdateNode => 2,
            ConfChangeType::ConfChangeAddLearnerNode => 3,
        }
    }

    pub fn value(&self) -> (r: u64)
        ensures
            r == self.number(),
    {
        match self {
            ConfChangeType::ConfChangeAddNode => 0,
            ConfChangeType::ConfChangeRemoveNode => 1,
            ConfChangeType::ConfChangeUpdateNode => 2,
            ConfChangeType::ConfChangeAddLearnerNode => 3,
        }
    }
}

/// One change of membership: a node and what happens to it.
#[derive(Clone, Copy, Debug, PartialEq, Eq, Structural)]
pub struct ConfChangeSingle {
    pub field_type: ConfChangeType,
    pub node_id: u64,
}

/// A proposed change of membership, as it travels in a log entry.
#[derive(Debug, PartialEq, Eq)]
pub struct ConfChange {
    pub id: u64,
    pub field_type: ConfChangeType,
    pub node_id: u64,
    pub context: Vec<u8>,
}

} // verus!
