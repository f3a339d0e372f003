pub mod mvcc;
pub mod raft;
