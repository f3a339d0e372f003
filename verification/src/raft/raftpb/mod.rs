pub mod raft;
pub mod wire;
