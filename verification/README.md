# shard_tracker

Keeps track of the shards that a node follows: the shards of the accounts that it tracks, and the
shards that it tracks for their own sake. Tracking starts at once; untracking waits for the next
epoch.

- `src/` is the library, verified with Verus.
  - `tracker.rs`: `ShardTracker` and its operations.
  - `state.rs`: what a tracker holds, and how each operation changes it.
  - `placement.rs`: accounts in shards, as a relation.
  - `lookup.rs`: what the epoch manager may answer.
  - `laws.rs`: what holds of the tracker as a whole.
  - `account_index.rs`, `account_set.rs`, `shard_set.rs`: the collections.
  - `types.rs`: shard and account identifiers, block hashes, epoch identifiers.
- `tests/` runs the library.
- `app/` ties the library to an epoch manager that is shared behind a lock.
