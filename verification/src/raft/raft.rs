//! The raft state machine of one node.
use std::collections::HashMap;
use vstd::prelude::*;
use crate::raft::log::RaftLog;
use crate::raft::raftpb::raft::{Message, MessageType};
use crate::raft::read_only::{ReadOnly, ReadState};
use crate::raft::storage::Storage;
use crate::raft::tracker::ProgressTracker;
use crate::raft::util::text::text;

verus! {

/// The id that stands for no node, as when there is no leader.
pub const NONE: u64 = 0;

/// No limit on a size.
pub const NO_LIMIT: u64 = u64::MAX;

/// The role of a node in its group.
#[derive(Debug, Clone, Copy, PartialEq, Eq, Structural)]
pub enum State {
    Follower,
    Candidate,
    Leader,
}

/// How read-only requests are served.
#[derive(Debug, Clone, Copy, PartialEq, Eq, Structural)]
pub enum ReadOnlyOption {
    /// Linearizable by communicating with a quorum; the default.
    ReadOnlySafe,
    /// Linearizable by relying on the leader's lease, which clock drift can
    /// break.
    ReadOnlyLeaseBased,
}

/// The errors of a raft node.
#[derive(Debug, Clone, Copy, PartialEq, Eq, Structural)]
pub enum RafeError {
    /// A proposal was ignored, so that the proposer can fail fast.
    ProposalDropped,
}

impl RafeError {
    /// The message that describes the error.
    pub fn message(&self) -> (r: &'static str)
        ensures
            r@ == "raft proposal dropped"@,
    {
        "raft proposal dropped"
    }
}

/// The parameters to start a raft node with.
pub struct Config<S: Storage + Clone> {
    /// The identity of the local node; it cannot be `NONE`.
    pub id: u64,
    /// The ids of all nodes of a new group, this one included; only for a
    /// new group.
    pub peers: Vec<u64>,
    /// The ids of the learners of a new group.
    pub learners: Vec<u64>,
    /// The number of ticks without word from a leader after which a
    /// follower starts an election; it must be greater than `heartbeat_tick`.
    pub election_tick: isize,
    /// The number of ticks between the heartbeats of a leader.
    pub heartbeat_tick: isize,
    /// Where the node keeps its log and state.
    pub storage: S,
    /// The last applied index, when restarting.
    pub applied: u64,
    /// The most bytes of entries in one append message.
    pub max_size_per_msg: u64,
    /// The most bytes of committed entries handed out at once.
    pub max_committed_size_per_ready: u64,
    /// The most bytes of uncommitted entries a leader holds; 0 for no
    /// limit.
    pub max_uncommitted_entries_size: u64,
    /// The most append messages in flight to one follower.
    pub max_inflight_msgs: u64,
    /// Whether a leader steps down when it has not heard from a quorum.
    pub check_quorum: bool,
    /// Whether elections are preceded by a pre-vote.
    pub pre_vote: bool,
    /// How read-only requests are served.
    pub read_only_option: ReadOnlyOption,
    /// Whether followers drop proposals instead of forwarding them.
    pub disable_proposal_forwarding: bool,
}

/// Why a configuration is refused, if it is.
pub open spec fn validate_error<S: Storage + Clone>(c: &Config<S>) -> Option<Seq<char>> {
    if c.id == NONE {
        Some("cannot be none as id"@)
    } else if c.heartbeat_tick <= 0 {
        Some("heartbeat tick must be greater than 0"@)
    } else if c.election_tick <= 0 {
        Some("election tick must be greater than 0"@)
    } else if c.election_tick <= c.heartbeat_tick {
        Some("election tick must be greater than heartbeat tick"@)
    } else if c.max_inflight_msgs == 0 {
        Some("max inflight messages must be greater than 0"@)
    } else if c.read_only_option == ReadOnlyOption::ReadOnlyLeaseBased && !c.check_quorum {
        Some("check_quorum must be enabled when ReadOnlyOption is ReadOnlyLeaseBased"@)
    } else {
        None
    }
}

/// The id and the ticks of a configuration are acceptable: the election
/// tick is greater than the heartbeat tick, which is greater than 0.
pub open spec fn basics_valid<S: Storage + Clone>(c: &Config<S>) -> bool {
    c.id != NONE && c.heartbeat_tick > 0 && c.election_tick > 0 && c.election_tick
        > c.heartbeat_tick
}

impl<S: Storage + Clone> Config<S> {
    /// Checks the configuration, and fills in the defaults of the sizes:
    /// once the id and the ticks are found acceptable, an uncommitted size
    /// of 0 becomes `NO_LIMIT` and a committed size per ready of 0 becomes
    /// the size per message.
    pub fn validate(&mut self) -> (r: Result<(), String>)
        ensures
            match r {
                Ok(()) => validate_error(&*old(self)) is None,
                Err(msg) => validate_error(&*old(self)) == Some(msg@),
            },
            final(self).max_uncommitted_entries_size == if basics_valid(&*old(self))
                && old(self).max_uncommitted_entries_size == 0 {
                NO_LIMIT
            } else {
                old(self).max_uncommitted_entries_size
            },
            final(self).max_committed_size_per_ready == if basics_valid(&*old(self))
                && old(self).max_committed_size_per_ready == 0 {
                old(self).max_size_per_msg
            } else {
                old(self).max_committed_size_per_ready
            },
            final(self).id == old(self).id,
            final(self).peers == old(self).peers,
            final(self).learners == old(self).learners,
            final(self).election_tick == old(self).election_tick,
            final(self).heartbeat_tick == old(self).heartbeat_tick,
            final(self).storage == old(self).storage,
            final(self).applied == old(self).applied,
            final(self).max_size_per_msg == old(self).max_size_per_msg,
            final(self).max_inflight_msgs == old(self).max_inflight_msgs,
            final(self).check_quorum == old(self).check_quorum,
            final(self).pre_vote == old(self).pre_vote,
            final(self).read_only_option == old(self).read_only_option,
            final(self).disable_proposal_forwarding == old(self).disable_proposal_forwarding,
    {
        if self.id == NONE {
            return Err(text("cannot be none as id"));
        }
        if self.heartbeat_tick <= 0 {
            return Err(text("heartbeat tick must be greater than 0"));
        }
        if self.election_tick <= 0 {
            return Err(text("election tick must be greater than 0"));
        }
        if self.election_tick <= self.heartbeat_tick {
            return Err(text("election tick must be greater than heartbeat tick"));
        }
        if self.max_uncommitted_entries_size == 0 {
            self.max_uncommitted_entries_size = NO_LIMIT;
        }
        // default max_committed_size_per_ready to max_size_per_msg because
        // they were previously the same parameters.
        if self.max_committed_size_per_ready == 0 {
            self.max_committed_size_per_ready = self.max_size_per_msg;
        }
        if self.max_inflight_msgs <= 0 {
            return Err(text("max inflight messages must be greater than 0"));
        }
        if self.read_only_option == ReadOnlyOption::ReadOnlyLeaseBased && !self.check_quorum {
            return Err(
                text("check_quorum must be enabled when ReadOnlyOption is ReadOnlyLeaseBased"),
            );
        }
        Ok(())
    }
}

/// A follower's progress as the leader sees it: the highest index known to
/// be replicated and the next index to send.
#[derive(Debug, Clone, Copy, PartialEq, Eq, Structural)]
pub struct Progress {
    pub _match: u64,
    pub next: u64,
}

/// A raft node.
pub struct Raft<S: Storage + Clone> {
    pub id: u64,
    pub term: u64,
    pub vote: u64,
    pub read_state: Vec<ReadState>,
    /// The log.
    pub raft_log: RaftLog<S>,
    pub max_msg_size: u64,
    pub max_uncommitted_size: u64,
    /// The replication progress of each peer.
    pub prs: ProgressTracker,
    /// The node's role.
    pub state: State,
    /// Whether the node is a learner.
    pub is_learner: bool,
    /// The messages to send.
    pub msgs: Vec<Message>,
    /// The leader's id.
    pub lead: u64,
    /// The target of a leadership transfer, when not zero.
    pub lead_transferee: u64,
    /// An index at or past the latest pending configuration change; changes
    /// are proposed only once the applied index has passed it.
    pub pending_config_index: u64,
    /// An estimate of the size of the uncommitted tail of the log.
    pub uncommitted_size: u64,
    pub read_only: ReadOnly,
    /// Ticks since the last election timeout.
    pub election_elapsed: isize,
    /// Ticks since the last heartbeat timeout.
    pub heartbeat_elapsed: isize,
    pub check_quorum: bool,
    pub pre_vote: bool,
    pub heartbeat_timeout: isize,
    pub election_timeout: isize,
    /// A random number between `election_timeout` and twice it, less one.
    pub randomized_election_timeout: usize,
    pub disable_proposal_forwarding: bool,
    /// The votes received, by voter.
    pub votes: HashMap<u64, bool>,
}

impl<S: Storage + Clone> Raft<S> {
    /// A node for a valid configuration, as a follower at term 0 with no
    /// leader, over a log that recovers its storage's state; the log hands
    /// out at most `max_committed_size_per_ready` bytes of committed entries
    /// at once. `peers` and `learners` name the members of a new group; they
    /// may be given only where the storage's configuration has neither voters
    /// nor learners.
    pub fn new(config: Config<S>) -> (r: Self)
        requires
            validate_error(&config) is None,
            config.storage.inv(),
            config.peers@.len() > 0 || config.learners@.len() > 0 ==> {
                &&& config.storage.snapshot_spec().metadata.conf_state.voters.len() == 0
                &&& config.storage.snapshot_spec().metadata.conf_state.learners.len() == 0
            },
            config.max_inflight_msgs <= isize::MAX,
        ensures
            r.raft_log.wf(),
            r.raft_log.storage == config.storage,
            r.raft_log.committed == config.storage.first_index_spec() - 1,
            r.raft_log.applied == config.storage.first_index_spec() - 1,
            r.raft_log.unstable.offset == config.storage.last_index_spec() + 1,
            r.raft_log.unstable.entries@.len() == 0,
            r.raft_log.max_next_ents_size == if config.max_committed_size_per_ready == 0 {
                config.max_size_per_msg
            } else {
                config.max_committed_size_per_ready
            },
            r.id == config.id,
            r.term == 0,
            r.vote == 0,
            r.state == State::Follower,
            r.lead == NONE,
            r.max_msg_size == config.max_size_per_msg,
            r.max_uncommitted_size == if config.max_uncommitted_entries_size == 0 {
                NO_LIMIT
            } else {
                config.max_uncommitted_entries_size
            },
            r.prs.max_inflight == config.max_inflight_msgs,
            r.prs.progress.0@.len() == 0,
            r.votes@.len() == 0,
            r.msgs@.len() == 0,
            r.read_state@.len() == 0,
            !r.is_learner && !r.check_quorum && !r.pre_vote,
            r.lead_transferee == 0 && r.pending_config_index == 0 && r.uncommitted_size == 0,
            r.election_elapsed == 0 && r.heartbeat_elapsed == 0,
            r.heartbeat_timeout == 0 && r.election_timeout == 0,
            r.randomized_election_timeout == 0,
            r.prs.config.voters.0[0].votes@ == Set::<u64>::empty(),
            r.prs.config.voters.0[1].votes@ == Set::<u64>::empty(),
            !r.prs.config.auto_leave,
            r.prs.config.learners@ == Set::<u64>::empty(),
            r.prs.config.learners_next@ == Set::<u64>::empty(),
            r.prs.votes@ == Set::<u64>::empty(),
            r.raft_log.unstable.snapshot is None,
            r.raft_log.stabled == 0,
            r.raft_log.entries@.len() == 0,
            r.read_only.option == ReadOnlyOption::ReadOnlySafe,
            r.read_only.read_index_queue@.len() == 0,
            !r.disable_proposal_forwarding,
    {
        let mut config = config;
        let valid = config.validate();
        let state_ret = config.storage.initial_state();
        let id = config.id;
        let max_msg_size = config.max_size_per_msg;
        let max_uncommitted_size = config.max_uncommitted_entries_size;
        let max_inflight = config.max_inflight_msgs as isize;
        let max_ready = config.max_committed_size_per_ready;
        let raft_log = RaftLog::new_log_with_size(config.storage, max_ready);
        Raft {
            id,
            term: 0,
            vote: 0,
            read_state: Vec::new(),
            raft_log,
            max_msg_size,
            max_uncommitted_size,
            prs: ProgressTracker::new(max_inflight),
            state: State::Follower,
            is_learner: false,
            msgs: Vec::new(),
            lead: NONE,
            lead_transferee: 0,
            pending_config_index: 0,
            uncommitted_size: 0,
            read_only: ReadOnly {
                option: ReadOnlyOption::ReadOnlySafe,
                read_index_queue: Vec::new(),
            },
            election_elapsed: 0,
            heartbeat_elapsed: 0,
            check_quorum: false,
            pre_vote: false,
            heartbeat_timeout: 0,
            election_timeout: 0,
            randomized_election_timeout: 0,
            disable_proposal_forwarding: false,
            votes: HashMap::new(),
        }
    }

    /// Sends an append to peer `to` if there is anything to send; whether a
    /// message was sent. No message is sent yet.
    pub fn send_append(&self, to: usize) -> (r: bool)
        ensures
            !r,
    {
        false
    }

    /// Sends a heartbeat to peer `to`; nothing is sent yet.
    pub fn send_heartbeat(&mut self, to: u64)
        ensures
            *final(self) == *old(self),
    {
    }

    /// Advances the logical clock by a tick; nothing happens yet.
    pub fn tick(&mut self)
        ensures
            *final(self) == *old(self),
    {
    }

    /// Becomes a follower of `lead` at `term`; nothing happens yet.
    pub fn become_follower(&mut self, term: u64, lead: u64)
        ensures
            *final(self) == *old(self),
    {
    }

    /// Becomes a candidate; nothing happens yet.
    pub fn become_candidate(&mut self)
        ensures
            *final(self) == *old(self),
    {
    }

    /// Becomes the leader; nothing happens yet.
    pub fn become_leader(&mut self)
        ensures
            *final(self) == *old(self),
    {
    }

    /// Handles the message `m`: accepted, with no effect yet whatever its
    /// term, kind or the node's role.
    pub fn step(&mut self, m: Message) -> (r: Result<(), String>)
        ensures
            r is Ok,
            *final(self) == *old(self),
    {
        let term = m.term;
        if term == 0 {
            // local message
        } else if term > self.term {
            if m.field_type == MessageType::MsgVoteResp || m.field_type == MessageType::MsgPreVote {
            }
        }
        match self.state {
            State::Leader => {},
            State::Follower => {},
            State::Candidate => {},
        }
        Ok(())
    }

    /// Handles an append request; nothing happens yet.
    pub fn handle_append_entries(&mut self, m: Message)
        ensures
            *final(self) == *old(self),
    {
    }

    /// Handles a heartbeat; nothing happens yet.
    pub fn handle_heartbeat(&mut self, m: Message)
        ensures
            *final(self) == *old(self),
    {
    }

    /// Handles a snapshot; nothing happens yet.
    pub fn handle_snapshot(&mut self, m: Message)
        ensures
            *final(self) == *old(self),
    {
    }

    /// Adds node `id` to the group; nothing happens yet.
    pub fn add_node(&mut self, id: u64)
        ensures
            *final(self) == *old(self),
    {
    }

    /// Removes node `id` from the group; nothing happens yet.
    pub fn remove_node(&mut self, id: u64)
        ensures
            *final(self) == *old(self),
    {
    }
}

} // verus!
