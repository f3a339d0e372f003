pub mod counting;
pub mod joint;
pub mod majority;
pub mod quorum;
