use std::collections::HashSet;

use eraft::mvcc::revision::Revision;
use eraft::raft::conf_change::conf_change::{describe, incoming, join, outgoing};
use eraft::raft::conf_change::restore::to_conf_change_single;
use eraft::raft::mock::{new_entry, new_entry_set};
use eraft::raft::quorum::joint::JointConfig;
use eraft::raft::quorum::majority::MajorityConfig;
use eraft::raft::raftpb::raft::{
    ConfChange, ConfChangeSingle, ConfChangeType, ConfState, Entry, EntryType, HardState, MessageType,
};
use eraft::raft::raftpb::wire::{encode_conf_change, size_of_entry};
use eraft::raft::rawnode::{new_conf_change_entry, new_proposal_entry};
use eraft::raft::storage::StorageError;
use eraft::raft::tracker::state::StateType;
use eraft::raft::tracker::{Config, ProgressTracker};
use eraft::raft::util::{is_hard_state_equal, is_local_message, is_response_message, limit_size};

#[test]
fn util_message_kinds() {
    assert!(is_local_message(MessageType::MsgHup));
    assert!(is_local_message(MessageType::MsgBeat));
    assert!(!is_local_message(MessageType::MsgApp));
    assert!(is_response_message(MessageType::MsgAppResp));
    assert!(is_response_message(MessageType::MsgVoteResp));
    assert!(is_response_message(MessageType::MsgHeartbeatResp));
    assert!(!is_response_message(MessageType::MsgHeartbeat));
}

#[test]
fn util_hard_state_equal() {
    let a = HardState { term: 1, vote: 1, commit: 5 };
    assert!(is_hard_state_equal(&a, &a));
    assert!(!is_hard_state_equal(&a, &HardState { term: 2, vote: 1, commit: 5 }));
    assert!(!is_hard_state_equal(&a, &HardState { term: 1, vote: 2, commit: 5 }));
    assert!(!is_hard_state_equal(&a, &HardState { term: 1, vote: 1, commit: 6 }));
}

#[test]
fn wire_size_of_entry() {
    assert_eq!(size_of_entry(&Entry::new()), 0);
    assert_eq!(size_of_entry(&new_entry(1, 1)), 4);
    // a two-byte varint for 300
    assert_eq!(size_of_entry(&new_entry(300, 1)), 5);
    let mut e = new_entry(1, 1);
    e.data = b"hello".to_vec();
    assert_eq!(size_of_entry(&e), 11);
    e.entry_type = EntryType::EntryConfChange;
    assert_eq!(size_of_entry(&e), 13);
}

#[test]
fn wire_limit_size() {
    let ents = new_entry_set(vec![(1, 1), (2, 1), (3, 1), (4, 1)]);
    assert_eq!(limit_size(ents.clone(), 0), vec![new_entry(1, 1)]);
    assert_eq!(limit_size(ents.clone(), 8), new_entry_set(vec![(1, 1), (2, 1)]));
    assert_eq!(limit_size(ents.clone(), 15), new_entry_set(vec![(1, 1), (2, 1), (3, 1)]));
    assert_eq!(limit_size(ents.clone(), 16), ents);
    assert_eq!(limit_size(vec![], 0), vec![]);
}

#[test]
fn wire_encode_conf_change() {
    let cc = ConfChange {
        id: 1,
        field_type: ConfChangeType::ConfChangeRemoveNode,
        node_id: 3,
        context: vec![7],
    };
    assert_eq!(encode_conf_change(&cc), vec![0x08, 1, 0x10, 1, 0x18, 3, 0x22, 1, 7]);
    let cc = ConfChange { id: 0, field_type: ConfChangeType::ConfChangeAddNode, node_id: 300, context: vec![] };
    assert_eq!(encode_conf_change(&cc), vec![0x18, 0xac, 0x02]);
    let e = new_conf_change_entry(&cc);
    assert_eq!(e.entry_type, EntryType::EntryConfChange);
    assert_eq!(e.data, vec![0x18, 0xac, 0x02]);
    assert_eq!(e.term, 0);
    assert_eq!(e.index, 0);
}

#[test]
fn rawnode_proposal_entry() {
    let e = new_proposal_entry(vec![1, 2, 3]);
    assert_eq!(e.entry_type, EntryType::EntryNormal);
    assert_eq!(e.data, vec![1, 2, 3]);
    assert_eq!(e.index, 0);
}

#[test]
fn conf_change_describe() {
    let ccs = vec![
        ConfChangeSingle { field_type: ConfChangeType::ConfChangeAddNode, node_id: 1 },
        ConfChangeSingle { field_type: ConfChangeType::ConfChangeRemoveNode, node_id: 2 },
        ConfChangeSingle { field_type: ConfChangeType::ConfChangeAddLearnerNode, node_id: 30 },
    ];
    assert_eq!(describe(ccs), "ConfChangeAddNode(1) ConfChangeRemoveNode(2) ConfChangeAddLearnerNode(30)");
    assert_eq!(describe(vec![]), "");
}

#[test]
fn conf_change_to_single() {
    let mut cs = ConfState::new();
    cs.voters = vec![1, 2];
    cs.voters_outgoing = vec![3];
    cs.learners = vec![4];
    cs.learners_next = vec![5];
    let (out, inc) = to_conf_change_single(cs);
    assert_eq!(out, vec![ConfChangeSingle { field_type: ConfChangeType::ConfChangeAddNode, node_id: 3 }]);
    assert_eq!(
        inc,
        vec![
            ConfChangeSingle { field_type: ConfChangeType::ConfChangeRemoveNode, node_id: 3 },
            ConfChangeSingle { field_type: ConfChangeType::ConfChangeAddNode, node_id: 1 },
            ConfChangeSingle { field_type: ConfChangeType::ConfChangeAddNode, node_id: 2 },
            ConfChangeSingle { field_type: ConfChangeType::ConfChangeAddLearnerNode, node_id: 4 },
            ConfChangeSingle { field_type: ConfChangeType::ConfChangeAddLearnerNode, node_id: 5 },
        ]
    );
    let (out, inc) = to_conf_change_single(ConfState::new());
    assert!(out.is_empty());
    assert!(inc.is_empty());
}

#[test]
fn conf_change_joint_halves() {
    let j = JointConfig([MajorityConfig::from(vec![1, 2]), MajorityConfig::from(vec![3])]);
    assert_eq!(incoming(&j).as_slice(), vec![1, 2]);
    assert_eq!(outgoing(&j).as_slice(), vec![3]);
    let mut cfg = Config::default();
    assert!(!join(cfg));
    cfg = Config::default();
    cfg.voters = j;
    assert!(join(cfg));
}

#[test]
fn tracker_config_to_string() {
    let mut cfg = Config::default();
    assert_eq!(cfg.to_string(), "voters=()");
    cfg.voters = JointConfig([MajorityConfig::from(vec![2, 1]), MajorityConfig::from(vec![3])]);
    let mut learners = HashSet::new();
    learners.insert(5);
    learners.insert(4);
    cfg.learners = learners;
    cfg.auto_leave = true;
    assert_eq!(cfg.to_string(), "voters=(1,2)&&(3) learners=(4,5) auto_leave");
    let mut next = HashSet::new();
    next.insert(3);
    cfg.learners_next = next;
    assert_eq!(cfg.to_string(), "voters=(1,2)&&(3) learners=(4,5) learners_next=(3) auto_leave");
}

#[test]
fn tracker_config_state() {
    let mut t = ProgressTracker::new(16);
    assert_eq!(t.max_inflight, 16);
    assert!(t.progress.0.is_empty());
    t.config.voters = JointConfig([MajorityConfig::from(vec![3, 1, 2]), MajorityConfig::new()]);
    t.config.learners.insert(9);
    t.config.learners.insert(7);
    let cs = t.config_state();
    assert_eq!(cs.voters, vec![1, 2, 3]);
    assert_eq!(cs.voters_outgoing, Vec::<u64>::new());
    assert_eq!(cs.learners, vec![7, 9]);
    assert_eq!(cs.learners_next, Vec::<u64>::new());
    assert!(!cs.auto_leave);
}

#[test]
fn state_type_names() {
    assert_eq!(StateType::StateProbe.to_string(), "StateProbe");
    assert_eq!(StateType::StateReplicate.to_string(), "StateReplicate");
    assert_eq!(StateType::StateSnapshot.to_string(), "StateSnapshot");
}

#[test]
fn storage_error_messages() {
    assert_eq!(StorageError::Compacted.message(), "requested index is unavailable due to comaction");
    assert_eq!(StorageError::SnapshotOfDate.message(), "requested index is older than the existing snapshot");
    assert_eq!(StorageError::Unavailable.message(), "requested entry at index is unavailable");
    assert_eq!(StorageError::SnapshotTemporarilyUnavailable.message(), "snapshot is temporarily unavailable");
}

#[test]
fn revision_order() {
    let a = Revision { main: 2, sub: 0 };
    let b = Revision { main: 1, sub: 5 };
    let c = Revision { main: 2, sub: 1 };
    assert!(a.greater_than(&b));
    assert!(!b.greater_than(&a));
    assert!(c.greater_than(&a));
    assert!(!a.greater_than(&a));
    assert!(c.greater_than(&b));
}
