//! Which shards a node tracks.
//!
//! A [`ShardTracker`] is told which accounts and which shards to track. It tracks the shards that
//! those accounts are in and those shards. Tracking starts at once, and ends only with the epoch:
//! accounts and shards that are to be untracked stay pending until a block of another epoch comes.
//!
//! Which shard an account is in, and which epoch a block belongs to, is for the epoch manager to
//! say, whose answers come from storage. The tracker asks it through functions that each operation
//! is handed, and assumes nothing of what they answer. Beside the operations that ask stand those
//! that take the answers: `with_placed`, `place_account`, `flush_placed`, `enter_epoch`,
//! `decide_care` and `decide_will_care`.
//!
//! [`state`] says what a tracker holds and how each operation changes it, [`placement`] how accounts
//! lie in shards, and [`lookup`] what the epoch manager may answer. [`effects`] says element by
//! element what each operation does, and [`laws`] what holds of the tracker as a whole.

mod account_index;
mod account_set;
pub mod effects;
pub mod laws;
pub mod lookup;
pub mod placement;
mod shard_set;
pub mod state;
mod tracker;
mod types;

pub use tracker::ShardTracker;
pub use types::{AccountId, CryptoHash, EpochId, ShardId};
