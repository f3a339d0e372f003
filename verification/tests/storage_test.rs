use eraft::raft::mock::{new_entry, new_entry_set, new_snapshot};
use eraft::raft::raftpb::raft::{ConfState, HardState};
use eraft::raft::storage::{MemoryStorage, Storage, StorageError};

fn storage_3_to_5() -> MemoryStorage {
    // dummy entry at 3, entries 4 and 5
    let mut s = MemoryStorage::new();
    s.ents = new_entry_set(vec![(3, 3), (4, 4), (5, 5)]);
    s
}

#[test]
fn memory_storage_new() {
    let s = MemoryStorage::new();
    assert_eq!(s.first_index(), Ok(1));
    assert_eq!(s.last_index(), Ok(0));
    assert_eq!(s.term(0), Ok(0));
    assert_eq!(s.term(1), Err(StorageError::Unavailable));
    let (hs, cs) = s.initial_state().unwrap();
    assert_eq!(hs, HardState { term: 0, vote: 0, commit: 0 });
    assert_eq!(cs, ConfState::new());
}

#[test]
fn memory_storage_term() {
    let s = storage_3_to_5();
    assert_eq!(s.term(2), Err(StorageError::Compacted));
    assert_eq!(s.term(3), Ok(3));
    assert_eq!(s.term(4), Ok(4));
    assert_eq!(s.term(5), Ok(5));
    assert_eq!(s.term(6), Err(StorageError::Unavailable));
}

#[test]
fn memory_storage_entries() {
    let s = storage_3_to_5();
    assert_eq!(s.entries(2, 6), Err(StorageError::Compacted));
    assert_eq!(s.entries(3, 4), Err(StorageError::Compacted));
    assert_eq!(s.entries(4, 5), Ok(vec![new_entry(4, 4)]));
    assert_eq!(s.entries(4, 6), Ok(vec![new_entry(4, 4), new_entry(5, 5)]));
    assert_eq!(s.entries(5, 5), Ok(vec![]));
}

#[test]
fn memory_storage_first_and_last_index() {
    let s = storage_3_to_5();
    assert_eq!(s.first_index(), Ok(4));
    assert_eq!(s.last_index(), Ok(5));
}

#[test]
fn memory_storage_compact() {
    let mut s = storage_3_to_5();
    assert_eq!(s.compact(2), Err(StorageError::Compacted));
    assert_eq!(s.compact(3), Err(StorageError::Compacted));
    assert_eq!(s.ents.len(), 3);
    assert_eq!(s.compact(4), Ok(()));
    assert_eq!(s.first_index(), Ok(5));
    assert_eq!(s.last_index(), Ok(5));
    assert_eq!(s.term(4), Ok(4));
    assert_eq!(s.entries(5, 6), Ok(vec![new_entry(5, 5)]));
    assert_eq!(s.compact(5), Ok(()));
    assert_eq!(s.ents.len(), 1);
    assert_eq!(s.first_index(), Ok(6));
}

#[test]
fn memory_storage_create_snapshot() {
    let mut s = storage_3_to_5();
    let mut cs = ConfState::new();
    cs.voters = vec![1, 2, 3];
    let snap = s.create_snapshot(4, Some(cs.clone()), vec![9, 9]).unwrap();
    assert_eq!(snap.metadata.index, 4);
    assert_eq!(snap.metadata.term, 4);
    assert_eq!(snap.metadata.conf_state, cs);
    assert_eq!(snap.data, vec![9, 9]);
    assert_eq!(s.snapshot().unwrap(), snap);
    assert_eq!(s.create_snapshot(4, None, vec![]), Err(StorageError::SnapshotOfDate));
    assert_eq!(s.create_snapshot(3, None, vec![]), Err(StorageError::SnapshotOfDate));
    let snap = s.create_snapshot(5, None, vec![]).unwrap();
    assert_eq!(snap.metadata.index, 5);
    assert_eq!(snap.metadata.conf_state, cs);
}

#[test]
fn memory_storage_apply_snapshot() {
    let mut s = MemoryStorage::new();
    assert_eq!(s.apply_snapshot(new_snapshot(4, 4)), Ok(()));
    assert_eq!(s.first_index(), Ok(5));
    assert_eq!(s.last_index(), Ok(4));
    assert_eq!(s.term(4), Ok(4));
    assert_eq!(s.apply_snapshot(new_snapshot(3, 3)), Err(StorageError::SnapshotOfDate));
    assert_eq!(s.apply_snapshot(new_snapshot(4, 5)), Err(StorageError::SnapshotOfDate));
    assert_eq!(s.first_index(), Ok(5));
}

#[test]
fn memory_storage_append() {
    // (entries, expected ents)
    let tests = vec![
        (new_entry_set(vec![(3, 3), (4, 4), (5, 5)]), new_entry_set(vec![(3, 3), (4, 4), (5, 5)])),
        (new_entry_set(vec![(3, 3), (4, 6), (5, 6)]), new_entry_set(vec![(3, 3), (4, 6), (5, 6)])),
        (
            new_entry_set(vec![(3, 3), (4, 4), (5, 5), (6, 5)]),
            new_entry_set(vec![(3, 3), (4, 4), (5, 5), (6, 5)]),
        ),
        // truncate incoming entries, truncate the existing entries and append
        (new_entry_set(vec![(2, 3), (3, 3), (4, 5)]), new_entry_set(vec![(3, 3), (4, 5)])),
        // truncate the existing entries and append
        (new_entry_set(vec![(4, 5)]), new_entry_set(vec![(3, 3), (4, 5)])),
        // direct append
        (new_entry_set(vec![(6, 5)]), new_entry_set(vec![(3, 3), (4, 4), (5, 5), (6, 5)])),
        // nothing new
        (new_entry_set(vec![(1, 1), (2, 2)]), new_entry_set(vec![(3, 3), (4, 4), (5, 5)])),
    ];
    for (entries, want) in tests {
        let mut s = storage_3_to_5();
        assert_eq!(s.append(entries), Ok(()));
        assert_eq!(s.ents, want);
    }
}

#[test]
fn memory_storage_read_after_append() {
    let mut s = MemoryStorage::new();
    let ents = new_entry_set(vec![(1, 1), (2, 1), (3, 2)]);
    assert_eq!(s.append(ents.clone()), Ok(()));
    assert_eq!(s.entries(1, 4), Ok(ents));
    assert_eq!(s.last_index(), Ok(3));
    let mut hs = HardState::default();
    hs.term = 2;
    hs.commit = 3;
    assert_eq!(s.set_hard_state(hs), Ok(()));
    assert_eq!(s.initial_state().unwrap().0, hs);
}
