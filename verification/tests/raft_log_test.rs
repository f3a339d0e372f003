use eraft::raft::log::RaftLogError;
use eraft::raft::mock::{new_entry, new_entry_set, new_log, new_log_with_storage, new_snapshot};
use eraft::raft::raft::NO_LIMIT;
use eraft::raft::storage::{MemoryStorage, StorageError};

#[test]
fn raft_log_read_after_append() {
    let mut raft_log = new_log();
    let ents = new_entry_set(vec![(1, 1), (2, 1), (3, 2)]);
    assert_eq!(raft_log.append(&ents), 3);
    assert_eq!(raft_log.slice(1, 4, NO_LIMIT), Ok(ents));
    assert_eq!(raft_log.term(3), Ok(2));
    assert_eq!(raft_log.last_term(), 2);
    assert_eq!(raft_log.first_index(), 1);
    assert_eq!(raft_log.last_index(), 3);
}

#[test]
fn raft_log_term_outside_the_log_is_zero() {
    let mut raft_log = new_log();
    raft_log.append(&new_entry_set(vec![(1, 1), (2, 2)]));
    assert_eq!(raft_log.term(0), Ok(0));
    assert_eq!(raft_log.term(3), Ok(0));
    assert!(raft_log.match_term(2, 2));
    assert!(!raft_log.match_term(2, 1));
}

#[test]
fn raft_log_slice_with_size_limit() {
    let mut raft_log = new_log();
    raft_log.append(&new_entry_set(vec![(1, 1), (2, 1), (3, 1)]));
    // each entry takes four bytes: at least one comes back
    assert_eq!(raft_log.slice(1, 4, 0), Ok(vec![new_entry(1, 1)]));
    assert_eq!(raft_log.slice(1, 4, 7), Ok(vec![new_entry(1, 1)]));
    assert_eq!(raft_log.slice(1, 4, 8), Ok(vec![new_entry(1, 1), new_entry(2, 1)]));
    assert_eq!(raft_log.slice(2, 4, 12), Ok(vec![new_entry(2, 1), new_entry(3, 1)]));
    assert_eq!(raft_log.slice(2, 2, NO_LIMIT), Ok(vec![]));
    assert_eq!(raft_log.entries(2, NO_LIMIT), Ok(vec![new_entry(2, 1), new_entry(3, 1)]));
    assert_eq!(raft_log.entries(4, NO_LIMIT), Ok(vec![]));
    assert_eq!(raft_log.all_entries(), new_entry_set(vec![(1, 1), (2, 1), (3, 1)]));
}

#[test]
fn raft_log_slice_before_first_index() {
    let mut storage = MemoryStorage::new();
    assert_eq!(storage.apply_snapshot(new_snapshot(3, 3)), Ok(()));
    let mut raft_log = new_log_with_storage(storage);
    raft_log.append(&new_entry_set(vec![(4, 3), (5, 4)]));
    assert_eq!(raft_log.first_index(), 4);
    assert_eq!(
        raft_log.slice(3, 5, NO_LIMIT),
        Err(RaftLogError::FromStorage(StorageError::Compacted))
    );
    assert_eq!(
        raft_log.must_check_out_of_bounds(2, 4),
        Err(RaftLogError::FromStorage(StorageError::Compacted))
    );
    assert_eq!(raft_log.must_check_out_of_bounds(4, 6), Ok(()));
    assert_eq!(raft_log.term(3), Ok(3));
    assert_eq!(raft_log.slice(4, 6, NO_LIMIT), Ok(new_entry_set(vec![(4, 3), (5, 4)])));
}

#[test]
fn raft_log_commit_and_apply() {
    let mut raft_log = new_log();
    raft_log.append(&new_entry_set(vec![(1, 1), (2, 1), (3, 2)]));
    assert!(!raft_log.has_next_entries());
    raft_log.commit_to(2);
    assert_eq!(raft_log.committed, 2);
    // never decreases
    raft_log.commit_to(1);
    assert_eq!(raft_log.committed, 2);
    assert!(raft_log.has_next_entries());
    assert_eq!(raft_log.next_ents(), new_entry_set(vec![(1, 1), (2, 1)]));
    raft_log.applied_to(1);
    assert_eq!(raft_log.applied, 1);
    assert_eq!(raft_log.next_ents(), vec![new_entry(2, 1)]);
    raft_log.applied_to(2);
    assert!(!raft_log.has_next_entries());
    assert_eq!(raft_log.next_ents(), vec![]);
}

#[test]
fn raft_log_maybe_commit() {
    let mut raft_log = new_log();
    raft_log.append(&new_entry_set(vec![(1, 1), (2, 1), (3, 2)]));
    // wrong term
    assert!(!raft_log.maybe_commit(3, 1));
    assert_eq!(raft_log.committed, 0);
    assert!(raft_log.maybe_commit(3, 2));
    assert_eq!(raft_log.committed, 3);
    // not above the committed index
    assert!(!raft_log.maybe_commit(2, 1));
    assert_eq!(raft_log.committed, 3);
}

#[test]
fn raft_log_stable_to() {
    let mut raft_log = new_log();
    raft_log.append(&new_entry_set(vec![(1, 1), (2, 1), (3, 2)]));
    assert_eq!(raft_log.unstable_entries().len(), 3);
    // the first two are written to storage
    assert_eq!(raft_log.storage.append(new_entry_set(vec![(1, 1), (2, 1)])), Ok(()));
    // wrong term: nothing changes
    raft_log.stable_to(2, 2);
    assert_eq!(raft_log.unstable.offset, 1);
    raft_log.stable_to(2, 1);
    assert_eq!(raft_log.unstable.offset, 3);
    assert_eq!(raft_log.unstable_entries(), &[new_entry(3, 2)][..]);
}

#[test]
fn raft_log_restore() {
    let mut raft_log = new_log();
    raft_log.append(&new_entry_set(vec![(1, 1), (2, 1)]));
    raft_log.restore(new_snapshot(10, 3));
    assert_eq!(raft_log.committed, 10);
    assert_eq!(raft_log.first_index(), 11);
    assert_eq!(raft_log.last_index(), 10);
    assert_eq!(raft_log.term(10), Ok(3));
    assert_eq!(raft_log.unstable.offset, 11);
    assert_eq!(raft_log.snapshot(), Ok(new_snapshot(10, 3)));
    // the snapshot is written to storage
    assert_eq!(raft_log.storage.apply_snapshot(new_snapshot(10, 3)), Ok(()));
    raft_log.stable_snap_to(10);
    assert!(raft_log.unstable.snapshot.is_none());
    assert_eq!(raft_log.snapshot(), Ok(new_snapshot(10, 3)));
    assert_eq!(raft_log.first_index(), 11);
    assert_eq!(raft_log.last_index(), 10);
}

#[test]
fn raft_log_restore_below_commit() {
    let mut raft_log = new_log();
    raft_log.append(&new_entry_set(vec![(1, 1), (2, 1), (3, 1)]));
    raft_log.commit_to(3);
    raft_log.applied_to(1);
    raft_log.restore(new_snapshot(2, 1));
    assert_eq!(raft_log.committed, 2);
    assert_eq!(raft_log.first_index(), 3);
    assert_eq!(raft_log.last_index(), 2);
}

#[test]
fn raft_log_append_keeps_earlier_entries() {
    let mut storage = MemoryStorage::new();
    assert_eq!(storage.append(new_entry_set(vec![(1, 1), (2, 2)])), Ok(()));
    let mut raft_log = new_log_with_storage(storage);
    assert_eq!(raft_log.append(&new_entry_set(vec![(2, 3), (3, 3)])), 3);
    assert_eq!(raft_log.unstable.offset, 2);
    assert_eq!(raft_log.entries(1, NO_LIMIT), Ok(new_entry_set(vec![(1, 1), (2, 3), (3, 3)])));
}

#[test]
fn raft_log_zero_term_on_compacted() {
    let raft_log = new_log();
    assert_eq!(raft_log.zero_term_on_err_compacted(7, Ok(7)), 7);
    assert_eq!(
        raft_log.zero_term_on_err_compacted(7, Err(RaftLogError::FromStorage(StorageError::Compacted))),
        0
    );
}

#[test]
fn raft_log_to_string() {
    let mut raft_log = new_log();
    raft_log.append(&new_entry_set(vec![(1, 1), (2, 1)]));
    assert_eq!(
        raft_log.to_string(),
        "committed=0, applied=0, unstable.offset=1, len(unstable.entries)=2"
    );
}
