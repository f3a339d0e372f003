pub mod quorum;
pub mod conf_change;
pub mod log;
pub mod mock;
pub mod node;
pub mod raft;
pub mod raftpb;
pub mod rawnode;
pub mod read_only;
pub mod storage;
pub mod tracker;
pub mod unstable;
pub mod util;
