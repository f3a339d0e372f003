# eraft

The core of a raft consensus library, with the parts of a multi-version
key-value store that sit on top of it, written in Verus: Verus proves the
code against its contracts. The calls into `protobuf` and two calls into
std's `String` are trusted items whose contracts are believed, not proved;
they are marked `external_body` or `assume_specification` in
`src/raft/raftpb/wire.rs` and `src/raft/util/text.rs`.

## Layout

- `src/raft/quorum`: majority and joint quorums, their committed indexes and
  election outcomes.
- `src/raft/tracker`: the replication progress of each follower, with the
  window of messages in flight, and the active configuration.
- `src/raft/storage.rs`, `unstable.rs`, `log.rs`: the raft log, over a storage
  that holds its stable part.
- `src/raft/raftpb`: the messages and their protobuf sizes and encodings,
  computed with the `protobuf` crate.
- `src/raft/raft.rs`, `rawnode.rs`, `conf_change`: the node, its
  configuration and the configuration changes.
- `src/mvcc`: revisions and the interfaces of the key-value store.
- `tests/`: the tests, run against the compiled library.
- `app/`: the error types with `std::error::Error`, and the node calls with
  `bytes` payloads and `anyhow` results.
