//! Helpers that build entries, snapshots and logs.
use vstd::prelude::*;
use crate::raft::log::RaftLog;
use crate::raft::raftpb::raft::{
    empty_conf_state_view, empty_snapshot_view, views, Entry, EntryType, EntryView, HardState, Snapshot,
};
use crate::raft::storage::{dummy_entry_view, MemoryStorage, Storage};

verus! {

/// An entry with index `index`, term `term` and no payload.
pub fn new_entry(index: u64, term: u64) -> (e: Entry)
    ensures
        e@ == (EntryView { entry_type: EntryType::EntryNormal, term, index, data: Seq::empty() }),
{
    let mut entry = Entry::new();
    entry.index = index;
    entry.term = term;
    entry
}

/// The entries with the given (index, term) pairs, in order.
pub fn new_entry_set(set: Vec<(u64, u64)>) -> (r: Vec<Entry>)
    ensures
        r@.len() == set@.len(),
        forall|k: int|
            0 <= k < set@.len() ==> (#[trigger] r@[k])@ == (EntryView {
                entry_type: EntryType::EntryNormal,
                term: set@[k].1,
                index: set@[k].0,
                data: Seq::empty(),
            }),
{
    let mut r: Vec<Entry> = Vec::new();
    let mut i: usize = 0;
    while i < set.len()
        invariant
            i <= set@.len(),
            r@.len() == i,
            forall|k: int|
                0 <= k < i ==> (#[trigger] r@[k])@ == (EntryView {
                    entry_type: EntryType::EntryNormal,
                    term: set@[k].1,
                    index: set@[k].0,
                    data: Seq::empty(),
                }),
        decreases set@.len() - i,
    {
        let (index, term) = set[i];
        r.push(new_entry(index, term));
        i = i + 1;
    }
    r
}

/// No entries.
pub fn new_empty_entry_set() -> (r: Vec<Entry>)
    ensures
        r@.len() == 0,
{
    Vec::new()
}

/// A snapshot that ends with the entry at `index` of term `term`.
pub fn new_snapshot(index: u64, term: u64) -> (s: Snapshot)
    ensures
        s@.metadata.index == index,
        s@.metadata.term == term,
        s@.metadata.conf_state == empty_conf_state_view(),
        s@.data.len() == 0,
{
    let mut snapshot = Snapshot::new();
    snapshot.metadata.index = index;
    snapshot.metadata.term = term;
    snapshot
}

/// An empty memory storage.
pub fn new_memory() -> (r: MemoryStorage)
    ensures
        r.inv(),
        r.first_index_spec() == 1,
        r.last_index_spec() == 0,
        r.term_spec(0) == 0,
        views(r.ents@) == seq![dummy_entry_view(0, 0)],
        r.hard_state_spec() == (HardState { term: 0, vote: 0, commit: 0 }),
        r.snapshot_spec() == empty_snapshot_view(),
{
    let storage = MemoryStorage::new();
    storage
}

/// A log over an empty memory storage.
pub fn new_log() -> (r: RaftLog<MemoryStorage>)
    ensures
        r.wf(),
        r.committed == 0,
        r.applied == 0,
        r.unstable.offset == 1,
        r.unstable.entries@.len() == 0,
        r.unstable.snapshot is None,
        r.storage.first_index_spec() == 1,
        r.storage.last_index_spec() == 0,
{
    let storage = new_memory();
    let log = RaftLog::new(storage);
    log
}

/// A log over `storage`.
pub fn new_log_with_storage(storage: MemoryStorage) -> (r: RaftLog<MemoryStorage>)
    requires
        storage.inv(),
    ensures
        r.wf(),
        r.storage == storage,
        r.committed == storage.first_index_spec() - 1,
        r.applied == storage.first_index_spec() - 1,
        r.unstable.offset == storage.last_index_spec() + 1,
        r.unstable.entries@.len() == 0,
        r.unstable.snapshot is None,
{
    RaftLog::new(storage)
}

} // verus!
