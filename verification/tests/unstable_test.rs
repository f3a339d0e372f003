use eraft::raft::mock::{new_entry, new_entry_set, new_snapshot};
use eraft::raft::unstable::Unstable;

fn unstable(snapshot: Option<(u64, u64)>, entries: Vec<(u64, u64)>, offset: u64) -> Unstable {
    Unstable {
        snapshot: snapshot.map(|(i, t)| new_snapshot(i, t)),
        entries: new_entry_set(entries),
        offset,
    }
}

#[test]
fn unstable_maybe_first_index() {
    assert_eq!(unstable(None, vec![(5, 1)], 5).maybe_first_index(), None);
    assert_eq!(unstable(None, vec![], 0).maybe_first_index(), None);
    assert_eq!(unstable(Some((4, 1)), vec![(5, 1)], 5).maybe_first_index(), Some(5));
    assert_eq!(unstable(Some((4, 1)), vec![], 5).maybe_first_index(), Some(5));
}

#[test]
fn unstable_maybe_last_index() {
    assert_eq!(unstable(None, vec![(5, 1)], 5).maybe_last_index(), Some(5));
    assert_eq!(unstable(Some((4, 1)), vec![(5, 1)], 5).maybe_last_index(), Some(5));
    assert_eq!(unstable(Some((4, 1)), vec![], 5).maybe_last_index(), Some(4));
    assert_eq!(unstable(None, vec![], 0).maybe_last_index(), None);
}

#[test]
fn unstable_maybe_term() {
    let u = unstable(None, vec![(5, 1)], 5);
    assert_eq!(u.maybe_term(5), Some(1));
    assert_eq!(u.maybe_term(6), None);
    assert_eq!(u.maybe_term(4), None);
    let u = unstable(Some((4, 1)), vec![(5, 1)], 5);
    assert_eq!(u.maybe_term(5), Some(1));
    assert_eq!(u.maybe_term(6), None);
    assert_eq!(u.maybe_term(4), Some(1));
    assert_eq!(u.maybe_term(3), None);
    let u = unstable(Some((4, 1)), vec![], 5);
    assert_eq!(u.maybe_term(5), None);
    assert_eq!(u.maybe_term(4), Some(1));
    assert_eq!(unstable(None, vec![], 0).maybe_term(5), None);
}

#[test]
fn unstable_restore() {
    let mut u = unstable(Some((4, 1)), vec![(5, 1)], 5);
    u.restore(new_snapshot(6, 2));
    assert_eq!(u.offset, 7);
    assert!(u.entries.is_empty());
    assert_eq!(u.snapshot, Some(new_snapshot(6, 2)));
}

#[test]
fn unstable_stable_to() {
    // (entries, offset, snapshot, index, term, w_offset, w_len)
    let tests = vec![
        (vec![], 0, None, 5, 1, 0, 0),
        // stable to the first entry
        (vec![(5, 1)], 5, None, 5, 1, 6, 0),
        (vec![(5, 1), (6, 1)], 5, None, 5, 1, 6, 1),
        // stable to the first entry, term mismatch
        (vec![(6, 2)], 6, None, 6, 1, 6, 1),
        // stable to old entry
        (vec![(5, 1)], 5, None, 4, 1, 5, 1),
        (vec![(5, 1)], 5, None, 4, 2, 5, 1),
        // with snapshot
        (vec![(5, 1)], 5, Some((4, 1)), 5, 1, 6, 0),
        (vec![(5, 1), (6, 1)], 5, Some((4, 1)), 5, 1, 6, 1),
        (vec![(6, 2)], 6, Some((5, 1)), 6, 1, 6, 1),
        (vec![(5, 1)], 5, Some((4, 1)), 4, 1, 5, 1),
        (vec![], 5, Some((4, 2)), 4, 2, 5, 0),
    ];
    for (entries, offset, snap, index, term, w_offset, w_len) in tests {
        let mut u = unstable(snap, entries, offset);
        u.stable_to(index, term);
        assert_eq!(u.offset, w_offset);
        assert_eq!(u.entries.len(), w_len);
    }
}

#[test]
fn unstable_stable_snap_to() {
    let mut u = unstable(Some((4, 1)), vec![(5, 1)], 5);
    u.stable_snap_to(3);
    assert!(u.snapshot.is_some());
    u.stable_snap_to(4);
    assert!(u.snapshot.is_none());
}

#[test]
fn unstable_truncate_and_append() {
    // (entries, offset, to_append, w_offset, w_entries)
    let tests = vec![
        // append to the end
        (vec![(5, 1)], 5, vec![(6, 1), (7, 1)], 5, vec![(5, 1), (6, 1), (7, 1)]),
        // replace the unstable entries
        (vec![(5, 1)], 5, vec![(5, 2), (6, 2)], 5, vec![(5, 2), (6, 2)]),
        (vec![(5, 1)], 5, vec![(4, 2), (5, 2), (6, 2)], 4, vec![(4, 2), (5, 2), (6, 2)]),
        // truncate the existing entries and append
        (vec![(5, 1), (6, 1), (7, 1)], 5, vec![(6, 2)], 5, vec![(5, 1), (6, 2)]),
        (vec![(5, 1), (6, 1), (7, 1)], 5, vec![(7, 2), (8, 2)], 5, vec![(5, 1), (6, 1), (7, 2), (8, 2)]),
    ];
    for (entries, offset, to_append, w_offset, w_entries) in tests {
        let mut u = unstable(None, entries, offset);
        u.truncate_and_append(new_entry_set(to_append));
        assert_eq!(u.offset, w_offset);
        assert_eq!(u.entries, new_entry_set(w_entries));
    }
}

#[test]
fn unstable_slice() {
    let u = unstable(None, vec![(5, 1), (6, 1), (7, 2)], 5);
    assert_eq!(u.slice(6, 8), vec![new_entry(6, 1), new_entry(7, 2)]);
    assert_eq!(u.slice(5, 5), vec![]);
}
