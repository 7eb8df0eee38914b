//! What a tracker tracks, and how each operation changes it.

use vstd::prelude::*;

use crate::placement::{
    lemma_placed_shards_union, lemma_with_more, lemma_with_none, no_empty_entry, placed_shards,
    with_placements, without_placements, AccountsByShard, Placements,
};
use crate::types::{EpochId, ShardId};

verus! {

/// The contents of a tracker.
#[verifier::ext_equal]
pub struct TrackerState {
    /// Tracked accounts by shard.
    pub tracked_accounts: AccountsByShard,
    /// Shards that are tracked for their own sake.
    pub tracked_shards: Set<ShardId>,
    /// Shards that are tracked, for their own sake or for an account.
    pub actual_tracked_shards: Set<ShardId>,
    /// Accounts that the next epoch stops tracking.
    pub pending_untracked_accounts: Set<Seq<char>>,
    /// Shards that the next epoch stops tracking.
    pub pending_untracked_shards: Set<ShardId>,
    /// The epoch that the tracker is in.
    pub current_epoch_id: EpochId,
}

impl TrackerState {
    /// No shard has an empty set of accounts, and the shards that are tracked are those of the
    /// tracked accounts and those that are tracked for their own sake.
    pub open spec fn wf(self) -> bool {
        &&& no_empty_entry(self.tracked_accounts)
        &&& self.actual_tracked_shards == self.tracked_accounts.dom().union(self.tracked_shards)
    }

    /// Tracks `shards` and no account.
    pub open spec fn initial(shards: Set<ShardId>, epoch_id: EpochId) -> Self {
        TrackerState {
            tracked_accounts: Map::empty(),
            tracked_shards: shards,
            actual_tracked_shards: shards,
            pending_untracked_accounts: Set::empty(),
            pending_untracked_shards: Set::empty(),
            current_epoch_id: epoch_id,
        }
    }

    /// Also tracks the accounts of `placements`, each in its shard.
    pub open spec fn track_accounts(self, placements: Placements) -> Self {
        TrackerState {
            tracked_accounts: with_placements(self.tracked_accounts, placements),
            actual_tracked_shards: self.actual_tracked_shards.union(placed_shards(placements)),
            ..self
        }
    }

    /// Also tracks `shards` for their own sake.
    pub open spec fn track_shards(self, shards: Set<ShardId>) -> Self {
        TrackerState {
            tracked_shards: self.tracked_shards.union(shards),
            actual_tracked_shards: self.actual_tracked_shards.union(shards),
            ..self
        }
    }

    /// Also stops tracking the accounts `names` in the next epoch.
    pub open spec fn mark_accounts(self, names: Set<Seq<char>>) -> Self {
        TrackerState {
            pending_untracked_accounts: self.pending_untracked_accounts.union(names),
            ..self
        }
    }

    /// Also stops tracking `shards` for their own sake in the next epoch.
    pub open spec fn mark_shards(self, shards: Set<ShardId>) -> Self {
        TrackerState {
            pending_untracked_shards: self.pending_untracked_shards.union(shards),
            ..self
        }
    }

    /// Carries out what is pending, where `placements` says which shard each pending account is in.
    pub open spec fn flush(self, placements: Placements) -> Self {
        let tracked_accounts = without_placements(self.tracked_accounts, placements);
        let tracked_shards = self.tracked_shards.difference(self.pending_untracked_shards);
        TrackerState {
            tracked_accounts,
            tracked_shards,
            actual_tracked_shards: tracked_accounts.dom().union(tracked_shards),
            pending_untracked_accounts: Set::empty(),
            pending_untracked_shards: Set::empty(),
            current_epoch_id: self.current_epoch_id,
        }
    }

    /// Is in `epoch_id`. What is pending is carried out if that is another epoch.
    pub open spec fn enter_epoch(self, epoch_id: EpochId, placements: Placements) -> Self {
        if epoch_id == self.current_epoch_id {
            self
        } else {
            TrackerState { current_epoch_id: epoch_id, ..self.flush(placements) }
        }
    }

    /// Whether a node cares about `shard_id`. `account_cares` says whether its account does, if it
    /// has one; `is_me` whether it is the node that the tracker belongs to.
    pub open spec fn cares(
        self,
        account_cares: Option<bool>,
        shard_id: ShardId,
        is_me: bool,
    ) -> bool {
        match account_cares {
            None => self.actual_tracked_shards.contains(shard_id),
            Some(account_cares) => account_cares || (is_me
                && self.actual_tracked_shards.contains(shard_id)),
        }
    }
}

/// Tracking no account changes nothing.
pub(crate) proof fn lemma_track_no_accounts(state: TrackerState)
    ensures
        state.track_accounts(Set::empty()) == state,
{
    lemma_with_none(state.tracked_accounts);
    assert(state.track_accounts(Set::empty()) =~= state);
}

/// Tracking more accounts is tracking them after the first ones.
pub(crate) proof fn lemma_track_more_accounts(
    state: TrackerState,
    first: Placements,
    more: Placements,
)
    ensures
        state.track_accounts(first).track_accounts(more) == state.track_accounts(first.union(more)),
{
    lemma_with_more(state.tracked_accounts, first, more);
    lemma_placed_shards_union(first, more);
    assert(state.track_accounts(first).track_accounts(more) =~= state.track_accounts(
        first.union(more),
    ));
}

} // verus!
