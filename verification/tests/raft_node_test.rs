use eraft::raft::mock::{new_entry_set, new_snapshot};
use eraft::raft::raft::{Config, RafeError, Raft, ReadOnlyOption, State, NONE, NO_LIMIT};
use eraft::raft::raftpb::raft::{Message, MessageType};
use eraft::raft::rawnode::{RawNode, RawRaftError};
use eraft::raft::storage::MemoryStorage;
use eraft::raft::tracker::inflights::Inflights;
use eraft::raft::tracker::progress::Progress;
use eraft::raft::tracker::state::StateType;

fn config(storage: MemoryStorage) -> Config<MemoryStorage> {
    Config {
        id: 1,
        peers: vec![],
        learners: vec![],
        election_tick: 10,
        heartbeat_tick: 1,
        storage,
        applied: 0,
        max_size_per_msg: 1024,
        max_committed_size_per_ready: 0,
        max_uncommitted_entries_size: 0,
        max_inflight_msgs: 256,
        check_quorum: false,
        pre_vote: false,
        read_only_option: ReadOnlyOption::ReadOnlySafe,
        disable_proposal_forwarding: false,
    }
}

#[test]
fn config_validate_fills_defaults() {
    let mut c = config(MemoryStorage::new());
    assert_eq!(c.validate(), Ok(()));
    assert_eq!(c.max_uncommitted_entries_size, NO_LIMIT);
    assert_eq!(c.max_committed_size_per_ready, 1024);
    // set sizes are kept
    let mut c = config(MemoryStorage::new());
    c.max_uncommitted_entries_size = 5;
    c.max_committed_size_per_ready = 7;
    assert_eq!(c.validate(), Ok(()));
    assert_eq!(c.max_uncommitted_entries_size, 5);
    assert_eq!(c.max_committed_size_per_ready, 7);
}

#[test]
fn config_validate_errors() {
    let mut c = config(MemoryStorage::new());
    c.id = NONE;
    assert_eq!(c.validate(), Err("cannot be none as id".to_string()));
    let mut c = config(MemoryStorage::new());
    c.heartbeat_tick = 0;
    assert_eq!(c.validate(), Err("heartbeat tick must be greater than 0".to_string()));
    let mut c = config(MemoryStorage::new());
    c.election_tick = -1;
    assert_eq!(c.validate(), Err("election tick must be greater than 0".to_string()));
    let mut c = config(MemoryStorage::new());
    c.election_tick = 1;
    assert_eq!(c.validate(), Err("election tick must be greater than heartbeat tick".to_string()));
    let mut c = config(MemoryStorage::new());
    c.max_inflight_msgs = 0;
    assert_eq!(c.validate(), Err("max inflight messages must be greater than 0".to_string()));
    let mut c = config(MemoryStorage::new());
    c.read_only_option = ReadOnlyOption::ReadOnlyLeaseBased;
    assert_eq!(
        c.validate(),
        Err("check_quorum must be enabled when ReadOnlyOption is ReadOnlyLeaseBased".to_string())
    );
    c.check_quorum = true;
    assert_eq!(c.validate(), Ok(()));
}

#[test]
fn raft_new_recovers_the_storage() {
    let mut storage = MemoryStorage::new();
    assert_eq!(storage.apply_snapshot(new_snapshot(5, 2)), Ok(()));
    assert_eq!(storage.append(new_entry_set(vec![(6, 2), (7, 3)])), Ok(()));
    let r = Raft::new(config(storage));
    assert_eq!(r.id, 1);
    assert_eq!(r.term, 0);
    assert_eq!(r.state, State::Follower);
    assert_eq!(r.lead, NONE);
    assert_eq!(r.raft_log.committed, 5);
    assert_eq!(r.raft_log.applied, 5);
    assert_eq!(r.raft_log.first_index(), 6);
    assert_eq!(r.raft_log.last_index(), 7);
    assert_eq!(r.raft_log.unstable.offset, 8);
    assert_eq!(r.raft_log.max_next_ents_size, 1024);
    assert_eq!(r.max_uncommitted_size, NO_LIMIT);
    assert_eq!(r.prs.max_inflight, 256);
}

#[test]
fn raft_new_bootstraps_with_peers() {
    let mut c = config(MemoryStorage::new());
    c.peers = vec![1, 2, 3];
    c.max_size_per_msg = NO_LIMIT;
    let r = Raft::new(c);
    assert_eq!(r.state, State::Follower);
    assert_eq!(r.raft_log.last_index(), 0);
    assert!(r.prs.votes.is_empty());
    assert!(r.raft_log.unstable.snapshot.is_none());
}

#[test]
fn rafe_error_message() {
    assert_eq!(RafeError::ProposalDropped.message(), "raft proposal dropped");
}

fn raw_node() -> RawNode<MemoryStorage> {
    RawNode { raft: Raft::new(config(MemoryStorage::new())) }
}

fn message(t: MessageType, from: u64) -> Message {
    let mut m = Message::new();
    m.field_type = t;
    m.from = from;
    m
}

#[test]
fn rawnode_step_refuses_local_messages() {
    let mut n = raw_node();
    assert_eq!(n.step(message(MessageType::MsgHup, 2)), Err(RawRaftError::StepLocalMsg));
    assert_eq!(n.step(message(MessageType::MsgBeat, 2)), Err(RawRaftError::StepLocalMsg));
}

#[test]
fn rawnode_step_refuses_responses_from_unknown_peers() {
    let mut n = raw_node();
    assert_eq!(n.step(message(MessageType::MsgAppResp, 2)), Err(RawRaftError::StepPeerNotFound));
    assert_eq!(n.step(message(MessageType::MsgApp, 2)), Ok(()));
    n.raft.prs.progress.0.insert(
        2,
        Progress {
            _match: 0,
            next: 1,
            state: StateType::StateProbe,
            pending_snapshot: 0,
            recent_active: false,
            probe_sent: false,
            is_leader: false,
            inflights: Inflights::new(4),
        },
    );
    assert_eq!(n.step(message(MessageType::MsgAppResp, 2)), Ok(()));
}

#[test]
fn rawnode_error_messages() {
    assert_eq!(RawRaftError::StepLocalMsg.message(), "raft: cannot step raft local message");
    assert_eq!(RawRaftError::StepPeerNotFound.message(), "raft: cannot step as peer not found");
    assert_eq!(RawRaftError::StepUnknown("boom".to_string()).message(), "unknown error: boom");
}

#[test]
fn rawnode_campaign_and_propose() {
    let mut n = raw_node();
    assert_eq!(n.campaign(), Ok(()));
    assert_eq!(n.propose(vec![1, 2]), Ok(()));
    assert!(!n.has_ready());
}

#[test]
fn rawnode_get_progress() {
    let mut n = raw_node();
    n.raft.prs.progress.0.insert(
        3,
        Progress {
            _match: 4,
            next: 5,
            state: StateType::StateReplicate,
            pending_snapshot: 0,
            recent_active: true,
            probe_sent: false,
            is_leader: false,
            inflights: Inflights::new(4),
        },
    );
    // a follower reports nothing
    assert!(n.get_progress().is_empty());
    n.raft.state = State::Leader;
    let prs = n.get_progress();
    assert_eq!(prs.len(), 1);
    assert_eq!(prs[&3], eraft::raft::raft::Progress { _match: 4, next: 5 });
}
