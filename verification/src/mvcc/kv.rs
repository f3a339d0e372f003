//! The interfaces of a multi-version key-value store.
use vstd::prelude::*;

verus! {

/// The options of a range request.
pub struct RangeOptions {
    pub limit: i64,
    pub rev: i64,
    pub count: bool,
}

/// The result of a range request.
pub struct RangeResult {
    pub rev: i64,
    pub count: isize,
}

/// A view of the store for reading.
pub trait ReadView {
    /// The first revision at the time the transaction was opened; after a
    /// compaction, the compaction revision.
    fn first_rev() -> i64;

    /// The revision at the time the transaction was opened.
    fn rev() -> i64;

    /// The keys in the range `key..end` at revision `ro.rev` (the current
    /// one where that is not positive), or the key alone where `end` is
    /// empty; at most `ro.limit` of them. A compacted revision is an error.
    fn range(key: Vec<u8>, end: Vec<u8>, ro: RangeOptions) -> Result<RangeResult, String>;
}

/// A read transaction.
pub trait TxnRead: ReadView {
    /// Marks the transaction complete.
    fn end();
}

/// A view of the store for writing.
pub trait WriteView {
    /// Deletes the keys in `key..end`, or the key alone where `end` is
    /// empty. Returns the number of keys deleted and the store's revision.
    fn delete_range(key: Vec<u8>, end: Vec<u8>) -> (i64, i64, i64);
}

/// A transaction that can modify the store.
pub trait TxnWrite: TxnRead + WriteView {
}

/// A key-value store.
pub trait KV: ReadView + WriteView {
}

/// Something that can be watched for events.
pub trait Watchable {
}

/// A key-value store that can be watched.
pub trait WatchableKV: KV + Watchable {
}

/// A watchable store that knows the consistent index: the operations of an
/// entry whose index is not above it are skipped.
pub trait ConsistentWatchableKV: WatchableKV {
    /// The current consistent index.
    fn consistent_index() -> u64;
}

} // verus!
