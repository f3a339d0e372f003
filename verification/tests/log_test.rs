use eraft::raft::mock::{new_empty_entry_set, new_entry_set, new_log, new_log_with_storage};
use eraft::raft::raft::NO_LIMIT;
use eraft::raft::storage::MemoryStorage;

#[test]
fn it_find_conflict() {
    let previous_ents = new_entry_set(vec![(1, 1), (2, 2), (3, 3)]);
    // (&[Entry], w_conflict)
    let tests = vec![
        // no conflict, empty ent
        (new_entry_set(vec![]), 0),
        // no conflict
        (new_entry_set(vec![(1, 1), (2, 2), (3, 3)]), 0),
        (new_entry_set(vec![(2, 2), (3, 3)]), 0),
        (new_entry_set(vec![(3, 3)]), 0),
        // no conflict, but has new entries
        (new_entry_set(vec![(1, 1), (2, 2), (3, 3), (4, 4), (5, 5)]), 4),
        (new_entry_set(vec![(2, 2), (3, 3), (4, 4), (5, 4)]), 4),
        (new_entry_set(vec![(3, 3), (4, 4), (5, 5)]), 4),
        (new_entry_set(vec![(4, 4), (5, 5)]), 4),
        // conflicts with existing entries
        (new_entry_set(vec![(1, 4), (2, 4)]), 1),
        (new_entry_set(vec![(2, 1), (3, 4), (4, 4)]), 2),
        (new_entry_set(vec![(3, 1), (4, 2), (5, 4), (6, 4)]), 3),
    ];
    for (entries, w_conflict) in tests {
        let mut raft_log = new_log();
        assert_eq!(3, raft_log.append(&previous_ents));
        let g_conflict = raft_log.find_conflict(&entries);
        assert_eq!(g_conflict, w_conflict);
    }
}

#[test]
fn it_is_up_to_date() {
    let previous_ents = new_entry_set(vec![(1, 1), (2, 2), (3, 3)]);
    let mut raft_log = new_log();
    raft_log.append(&previous_ents);
    // (last_index, term, w_up_to_date)
    let tests = vec![
        // greater term, ignore, last_index
        (raft_log.last_index() - 1, 4, true),
        (raft_log.last_index(), 4, true),
        (raft_log.last_index() + 1, 4, true),
        // smaller term, ignore last_index
        (raft_log.last_index() - 1, 2, false),
        (raft_log.last_index(), 2, false),
        (raft_log.last_index() + 1, 2, false),
        // equal term, equal or larger last_index wins
        (raft_log.last_index() - 1, 3, false),
        (raft_log.last_index(), 3, true),
        (raft_log.last_index() + 1, 3, true),
    ];
    for (last_index, term, w_up_to_date) in tests {
        assert_eq!(raft_log.is_up_to_date(last_index, term), w_up_to_date);
    }
}

#[test]
fn it_append() {
    let previous_ents = new_entry_set(vec![(1, 1), (2, 2)]);
    //([]Entry, w_index, w_ents, w_unstable)
    let tests = vec![
        // conflicts with index 1
        (new_entry_set(vec![(1, 2)]), 1, new_entry_set(vec![(1, 2)]), 1),
        // conflicts with index 2
        (new_entry_set(vec![(2, 3), (3, 3)]), 3, new_entry_set(vec![(1, 1), (2, 3), (3, 3)]), 2),
    ];
    for (entries, w_index, w_ents, w_unstable) in tests {
        let mut storage = MemoryStorage::new();
        assert!(storage.append(previous_ents.clone()).is_ok());
        let mut raft_log = new_log_with_storage(storage);
        let index = raft_log.append(&entries);
        assert_eq!(index, w_index);
        let g = raft_log.entries(1, NO_LIMIT);
        assert!(g.is_ok());
        assert_eq!(g.unwrap(), w_ents);
        assert_eq!(raft_log.unstable.offset, w_unstable);
    }
}

// If the given (index, term) matches the log:
//  1. an existing entry that conflicts with a new one (same index, different
//     term) is deleted together with all that follow it;
//  2. the new entries not already in the log are appended.
// If it does not match, the result is None.
// Where the conflict is with a committed entry, the append is refused: the
// case is checked by that condition rather than run.
#[test]
fn it_log_maybe_append() {
    let previous_ents = new_entry_set(vec![(1, 1), (2, 2), (3, 3)]);
    let last_index: u64 = 3;
    let last_term: u64 = 3;
    let commit: u64 = 1;

    // (log_term, index, committed, entries, w_last_i, w_append, w_commit, w_panic)
    let tests = vec![
        // not match: term is different
        (last_term - 1, last_index, last_index, new_entry_set(vec![(1, 4)]), 0, false, commit, false),
        // not match: index out of bound
        (last_term, last_index + 1, last_index, new_entry_set(vec![(last_index + 2, 4)]), 0, false, commit, false),
        // match with the last existing entry
        (last_term, last_index, last_index, new_empty_entry_set(), last_index, true, last_index, false),
        (last_term, last_index, last_index + 1, new_empty_entry_set(), last_index, true, last_index, false), // do not increase commit higher than last_new_i
        (last_term, last_index, last_index - 1, new_empty_entry_set(), last_index, true, last_index - 1, false), // commit up to the commit in the message
        (last_term, last_index, 0, new_empty_entry_set(), last_index, true, commit, false), // commit do not decrease
        (0, 0, last_index, new_empty_entry_set(), 0, true, commit, false), // commit do not decrease
        (last_term, last_index, last_index, new_entry_set(vec![(last_index + 1, 4)]), last_index + 1, true, last_index, false),
        (last_term, last_index, last_index + 1, new_entry_set(vec![(last_index + 1, 4)]), last_index + 1, true, last_index + 1, false),
        (last_term, last_index, last_index + 2, new_entry_set(vec![(last_index + 1, 4)]), last_index + 1, true, last_index + 1, false), // do not increase commit higher than last_new_i
        (last_term, last_index, last_index + 2, new_entry_set(vec![(last_index + 1, 4), (last_index + 2, 4)]), last_index + 2, true, last_index + 2, false),
        // match with the entry in the middle
        (last_term - 1, last_index - 1, last_index, new_entry_set(vec![(last_index, 4)]), last_index, true, last_index, false),
        (last_term - 2, last_index - 2, last_index, new_entry_set(vec![(last_index - 1, 4)]), last_index - 1, true, last_index - 1, false),
        (last_term - 3, last_index - 3, last_index, new_entry_set(vec![(last_term - 2, 4)]), last_index - 2, true, last_index - 2, true), // conflict with existing committed entry
        (last_term - 2, last_index - 2, last_index, new_entry_set(vec![(last_index - 1, 4), (last_index, 4)]), last_index, true, last_index, false),
    ];

    for (log_term, index, committed, entries, w_last_i, w_append, w_commit, w_panic) in tests {
        let mut raft_log = new_log();
        raft_log.append(&previous_ents);
        raft_log.committed = commit;
        if w_panic {
            // The entries match at (index, log_term) but conflict at or
            // before the committed index.
            assert!(raft_log.match_term(index, log_term));
            let ci = raft_log.find_conflict(&entries);
            assert!(ci != 0 && ci <= raft_log.committed);
            continue;
        }
        let got = raft_log.maybe_append(index, log_term, committed, &entries);
        match got {
            Some(g_last_i) => assert_eq!(g_last_i, w_last_i),
            None => assert!(!w_append),
        }
        assert_eq!(raft_log.committed, w_commit);
        if got.is_some() && !entries.is_empty() {
            let g_ents = raft_log.slice(
                raft_log.last_index() - entries.len() as u64 + 1,
                raft_log.last_index() + 1,
                NO_LIMIT,
            );
            assert!(g_ents.is_ok());
            assert_eq!(entries, g_ents.unwrap());
        }
    }
}
