//! The tracker.

use std::collections::HashSet;

use vstd::prelude::*;

use crate::account_index::AccountIndex;
use crate::account_set::AccountSet;
use crate::effects::{is_tracked, law_flush};
use crate::lookup::{
    can_place, may_answer, may_ask_tracker, may_care, may_fail, may_flush, may_place, may_place_all,
    may_update, places_all, says_yes,
};
use crate::placement::{
    answered_placements, lemma_answered_push, lemma_listed_is_answered, lemma_listed_is_mapped,
    lemma_listed_push, lemma_with_more, lemma_with_none, lemma_without_more,
    lemma_without_no_empty_entry, lemma_without_none, lemma_without_one, lemma_without_shrinks,
    listed_placements, mapped_placements, names_of, placed_shards, with_placements,
    without_placements,
};
use crate::shard_set::{copy, insert_all, insert_listed, lemma_take_next, remove_all};
use crate::state::{lemma_track_more_accounts, lemma_track_no_accounts, TrackerState};
use crate::types::{AccountId, CryptoHash, EpochId, ShardId};

verus! {

/// Tracker that tracks shard ids and accounts. It maintains two items: `tracked_accounts` and
/// `tracked_shards`. The shards that are actually tracked are the union of shards that
/// `tracked_accounts` are in and `tracked_shards`.
#[derive(Debug)]
pub struct ShardTracker {
    /// Tracked accounts by shard id. A shard has an entry only if it has a tracked account.
    tracked_accounts: AccountIndex,
    /// Tracked shards.
    tracked_shards: HashSet<ShardId>,
    /// Combination of shards that correspond to tracked accounts and tracked shards.
    actual_tracked_shards: HashSet<ShardId>,
    /// Accounts that we stop tracking in the next epoch.
    pending_untracked_accounts: AccountSet,
    /// Shards that we stop tracking in the next epoch.
    pending_untracked_shards: HashSet<ShardId>,
    /// Current epoch id. Used to determine whether we need to flush pending requests.
    current_epoch_id: EpochId,
}

impl View for ShardTracker {
    type V = TrackerState;

    closed spec fn view(&self) -> TrackerState {
        TrackerState {
            tracked_accounts: self.tracked_accounts@,
            tracked_shards: self.tracked_shards@,
            actual_tracked_shards: self.actual_tracked_shards@,
            pending_untracked_accounts: self.pending_untracked_accounts@,
            pending_untracked_shards: self.pending_untracked_shards@,
            current_epoch_id: self.current_epoch_id,
        }
    }
}

impl Clone for ShardTracker {
    fn clone(&self) -> (copied: Self)
        ensures
            copied@ == self@,
            self.wf() ==> copied.wf(),
    {
        ShardTracker {
            tracked_accounts: self.tracked_accounts.clone(),
            tracked_shards: copy(&self.tracked_shards),
            actual_tracked_shards: copy(&self.actual_tracked_shards),
            pending_untracked_accounts: self.pending_untracked_accounts.clone(),
            pending_untracked_shards: copy(&self.pending_untracked_shards),
            current_epoch_id: self.current_epoch_id,
        }
    }
}

impl ShardTracker {
    /// The collections are well-formed.
    pub closed spec fn collections_wf(&self) -> bool {
        &&& self.tracked_accounts.wf()
        &&& self.pending_untracked_accounts.wf()
    }

    /// The collections are well-formed, and so is what they hold.
    pub open spec fn wf(&self) -> bool {
        &&& self.collections_wf()
        &&& self@.wf()
    }

    /// A tracker, in the epoch `epoch_id`, of `shards` and of the accounts of `placed`, each in the
    /// shard that `placed` gives.
    pub fn with_placed(
        placed: &[(AccountId, ShardId)],
        shards: &[ShardId],
        epoch_id: EpochId,
    ) -> (tracker: Self)
        ensures
            tracker.wf(),
            tracker@ == TrackerState::initial(shards@.to_set(), epoch_id).track_accounts(
                listed_placements(placed@),
            ),
            tracker@.tracked_shards == shards@.to_set(),
            tracker@.current_epoch_id == epoch_id,
    {
        let mut tracked_accounts = AccountIndex::new();
        let mut i: usize = 0;
        proof {
            assert(listed_placements(placed@.take(0)) =~= Set::<(Seq<char>, ShardId)>::empty());
            lemma_with_none(Map::empty());
        }
        while i < placed.len()
            invariant
                i <= placed@.len(),
                tracked_accounts.wf(),
                tracked_accounts@ == with_placements(
                    Map::empty(),
                    listed_placements(placed@.take(i as int)),
                ),
            decreases placed@.len() - i,
        {
            tracked_accounts.insert(placed[i].0.clone(), placed[i].1);
            proof {
                let taken = listed_placements(placed@.take(i as int));
                let pair = (placed@[i as int].0@, placed@[i as int].1);
                lemma_listed_push(placed@, i as int);
                lemma_with_more(Map::empty(), taken, set![pair]);
                assert(taken.union(set![pair]) =~= taken.insert(pair));
            }
            i += 1;
        }
        let mut tracked_shards: HashSet<ShardId> = HashSet::new();
        insert_listed(&mut tracked_shards, shards);
        let mut actual_tracked_shards = copy(&tracked_shards);
        tracked_accounts.add_shards_to(&mut actual_tracked_shards);
        let tracker = ShardTracker {
            tracked_accounts,
            tracked_shards,
            actual_tracked_shards,
            pending_untracked_accounts: AccountSet::new(),
            pending_untracked_shards: HashSet::new(),
            current_epoch_id: epoch_id,
        };
        proof {
            assert(placed@.take(i as int) =~= placed@);
            assert(tracker.tracked_shards@ =~= shards@.to_set());
            assert(tracker@.actual_tracked_shards =~= tracker@.tracked_accounts.dom().union(
                tracker@.tracked_shards,
            ));
            assert(tracker@ =~= TrackerState::initial(
                shards@.to_set(),
                epoch_id,
            ).track_accounts(listed_placements(placed@)));
        }
        tracker
    }

    /// A tracker, in the epoch `epoch_id`, of `shards` and of `accounts`, each in the shard that it
    /// is in at the block `prev_block_hash`.
    pub fn new<E: core::fmt::Debug, F: Fn(&AccountId, &CryptoHash) -> Result<ShardId, E>>(
        accounts: Vec<AccountId>,
        shards: Vec<ShardId>,
        prev_block_hash: CryptoHash,
        epoch_id: EpochId,
        account_id_to_shard_id: F,
    ) -> (tracker: Self)
        requires
            can_place(account_id_to_shard_id, prev_block_hash),
            forall|i: int, answer: Result<ShardId, E>|
                0 <= i < accounts@.len() && #[trigger] call_ensures(
                    account_id_to_shard_id,
                    (&accounts@[i], &prev_block_hash),
                    answer,
                ) ==> answer is Ok,
        ensures
            tracker.wf(),
            exists|answers: Seq<Result<ShardId, E>>| #[trigger]
                may_answer(account_id_to_shard_id, accounts@, prev_block_hash, answers)
                    && tracker@ == TrackerState::initial(
                    shards@.to_set(),
                    epoch_id,
                ).track_accounts(answered_placements(accounts@, answers)),
            tracker@.tracked_shards == shards@.to_set(),
            tracker@.current_epoch_id == epoch_id,
    {
        let ghost mut answers: Seq<Result<ShardId, E>> = Seq::empty();
        let mut placed: Vec<(AccountId, ShardId)> = Vec::new();
        for account_id in it: accounts
            invariant
                it.seq() == accounts@,
                can_place(account_id_to_shard_id, prev_block_hash),
                forall|i: int, answer: Result<ShardId, E>|
                    0 <= i < accounts@.len() && #[trigger] call_ensures(
                        account_id_to_shard_id,
                        (&accounts@[i], &prev_block_hash),
                        answer,
                    ) ==> answer is Ok,
                placed.len() == it.index(),
                answers.len() == it.index(),
                forall|j: int|
                    0 <= j < it.index() ==> call_ensures(
                        account_id_to_shard_id,
                        (&accounts@[j], &prev_block_hash),
                        #[trigger] answers[j],
                    ),
                forall|j: int|
                    0 <= j < it.index() ==> (#[trigger] placed@[j]).0@ == accounts@[j]@
                        && answers[j] == Ok::<ShardId, E>(placed@[j].1),
        {
            assert(account_id == accounts@[it.index()]);
            let answer = account_id_to_shard_id(&account_id, &prev_block_hash);
            proof {
                answers = answers.push(answer);
            }
            let shard_id = answer.unwrap();
            placed.push((account_id, shard_id));
        }
        assert(may_answer(account_id_to_shard_id, accounts@, prev_block_hash, answers));
        assert(listed_placements(placed@) == answered_placements(accounts@, answers)) by {
            lemma_listed_is_answered(placed@, accounts@, answers);
        }
        ShardTracker::with_placed(&placed, &shards, epoch_id)
    }

    /// Tracks `account_id` in `shard_id`, from now on.
    pub fn place_account(&mut self, account_id: &AccountId, shard_id: ShardId)
        requires
            old(self).wf(),
        ensures
            final(self).wf(),
            final(self)@ == old(self)@.track_accounts(set![(account_id@, shard_id)]),
    {
        let ghost before = self@;
        let ghost put = set![(account_id@, shard_id)];
        self.tracked_accounts.insert(account_id.clone(), shard_id);
        self.actual_tracked_shards.insert(shard_id);
        proof {
            assert(put.contains((account_id@, shard_id)));
            assert(placed_shards(put) =~= set![shard_id]);
            assert(self@.actual_tracked_shards =~= self@.tracked_accounts.dom().union(
                self@.tracked_shards,
            ));
            assert(self@ =~= before.track_accounts(put));
        }
    }

    /// Tracks `account_id` in the shard that it is in at the block `prev_block_hash`, from now on.
    /// An error leaves everything as it is.
    fn track_account<E, F: Fn(&AccountId, &CryptoHash) -> Result<ShardId, E>>(
        &mut self,
        account_id: &AccountId,
        prev_block_hash: &CryptoHash,
        account_id_to_shard_id: &F,
    ) -> (result: Result<(), E>)
        requires
            old(self).wf(),
            call_requires(*account_id_to_shard_id, (account_id, prev_block_hash)),
        ensures
            final(self).wf(),
            match result {
                Ok(_) => exists|shard_id: ShardId|
                    {
                        &&& #[trigger] call_ensures(
                            *account_id_to_shard_id,
                            (account_id, prev_block_hash),
                            Ok::<ShardId, E>(shard_id),
                        )
                        &&& final(self)@ == old(self)@.track_accounts(
                            set![(account_id@, shard_id)],
                        )
                    },
                Err(e) => {
                    &&& call_ensures(
                        *account_id_to_shard_id,
                        (account_id, prev_block_hash),
                        Err::<ShardId, E>(e),
                    )
                    &&& final(self)@ == old(self)@
                },
            },
    {
        match account_id_to_shard_id(account_id, prev_block_hash) {
            Ok(shard_id) => {
                self.place_account(account_id, shard_id);
                Ok(())
            },
            Err(e) => Err(e),
        }
    }

    /// Tracks a list of accounts, each in the shard that it is in at the block `prev_block_hash`.
    /// The tracking takes effect immediately because even if we want to start tracking the accounts
    /// in the next epoch, it cannot harm us to start tracking them earlier. An account for which
    /// there is an error is passed over.
    pub fn track_accounts<E, F: Fn(&AccountId, &CryptoHash) -> Result<ShardId, E>>(
        &mut self,
        account_ids: &[AccountId],
        prev_block_hash: &CryptoHash,
        account_id_to_shard_id: F,
    )
        requires
            old(self).wf(),
            can_place(account_id_to_shard_id, *prev_block_hash),
        ensures
            final(self).wf(),
            exists|answers: Seq<Result<ShardId, E>>| #[trigger]
                may_answer(account_id_to_shard_id, account_ids@, *prev_block_hash, answers)
                    && final(self)@ == old(self)@.track_accounts(
                    answered_placements(account_ids@, answers),
                ),
    {
        let ghost before = self@;
        let ghost mut answers: Seq<Result<ShardId, E>> = Seq::empty();
        let mut i: usize = 0;
        proof {
            lemma_track_no_accounts(before);
            assert(answered_placements(account_ids@.take(0), answers) =~= Set::<
                (Seq<char>, ShardId),
            >::empty());
        }
        while i < account_ids.len()
            invariant
                i <= account_ids@.len(),
                self.wf(),
                can_place(account_id_to_shard_id, *prev_block_hash),
                may_answer(
                    account_id_to_shard_id,
                    account_ids@.take(i as int),
                    *prev_block_hash,
                    answers,
                ),
                self@ == before.track_accounts(
                    answered_placements(account_ids@.take(i as int), answers),
                ),
            decreases account_ids@.len() - i,
        {
            let ghost last = self@;
            let ghost taken = answered_placements(account_ids@.take(i as int), answers);
            let result = self.track_account(
                &account_ids[i],
                prev_block_hash,
                &account_id_to_shard_id,
            );
            proof {
                let answer: Result<ShardId, E> = match result {
                    Ok(_) => Ok(
                        choose|shard_id: ShardId|
                            {
                                &&& #[trigger] call_ensures(
                                    account_id_to_shard_id,
                                    (&account_ids@[i as int], prev_block_hash),
                                    Ok::<ShardId, E>(shard_id),
                                )
                                &&& self@ == last.track_accounts(
                                    set![(account_ids@[i as int]@, shard_id)],
                                )
                            },
                    ),
                    Err(e) => Err(e),
                };
                lemma_answered_push(account_ids@, answers, i as int, answer);
                answers = answers.push(answer);
                assert(account_ids@.take(i + 1) =~= account_ids@.take(i as int).push(
                    account_ids@[i as int],
                ));
                if let Ok(shard_id) = answer {
                    let pair = (account_ids@[i as int]@, shard_id);
                    lemma_track_more_accounts(before, taken, set![pair]);
                    assert(taken.union(set![pair]) =~= taken.insert(pair));
                }
            }
            i += 1;
        }
        assert(account_ids@.take(i as int) =~= account_ids@);
    }

    /// Tracks `shard_id`, from now on.
    fn track_shard(&mut self, shard_id: ShardId)
        requires
            old(self).wf(),
        ensures
            final(self).wf(),
            final(self)@ == old(self)@.track_shards(set![shard_id]),
    {
        let ghost before = self@;
        self.tracked_shards.insert(shard_id);
        self.actual_tracked_shards.insert(shard_id);
        proof {
            assert(self@.actual_tracked_shards =~= self@.tracked_accounts.dom().union(
                self@.tracked_shards,
            ));
            assert(self@ =~= before.track_shards(set![shard_id]));
        }
    }

    /// Tracks a list of shards. Similar to tracking accounts, the tracking starts immediately.
    pub fn track_shards(&mut self, shard_ids: &[ShardId])
        requires
            old(self).wf(),
        ensures
            final(self).wf(),
            final(self)@ == old(self)@.track_shards(shard_ids@.to_set()),
    {
        let ghost before = self@;
        let mut i: usize = 0;
        assert(self@ =~= before.track_shards(shard_ids@.take(0).to_set()));
        while i < shard_ids.len()
            invariant
                i <= shard_ids@.len(),
                self.wf(),
                self@ == before.track_shards(shard_ids@.take(i as int).to_set()),
            decreases shard_ids@.len() - i,
        {
            self.track_shard(shard_ids[i]);
            proof {
                lemma_take_next(shard_ids@, i as int);
                assert(self@ =~= before.track_shards(shard_ids@.take(i + 1).to_set()));
            }
            i += 1;
        }
        assert(shard_ids@.take(i as int) =~= shard_ids@);
    }

    /// Takes out of the shards that are tracked those of `shards` that nothing tracks any more.
    fn drop_untracked(&mut self, shards: &HashSet<ShardId>)
        requires
            old(self).collections_wf(),
        ensures
            final(self).collections_wf(),
            final(self)@ == (TrackerState {
                actual_tracked_shards: old(self)@.actual_tracked_shards.difference(
                    shards@.difference(
                        old(self)@.tracked_accounts.dom().union(old(self)@.tracked_shards),
                    ),
                ),
                ..old(self)@
            }),
    {
        let ghost before = self@;
        let ghost kept = before.tracked_accounts.dom().union(before.tracked_shards);
        for shard_id in it: shards.iter()
            invariant
                self.collections_wf(),
                it.seq().unref().to_set() == shards@,
                it.seq().unref().take(it.seq().len() as int) == it.seq().unref(),
                kept == before.tracked_accounts.dom().union(before.tracked_shards),
                self@ == (TrackerState {
                    actual_tracked_shards: before.actual_tracked_shards.difference(
                        it.seq().unref().take(it.index()).to_set().difference(kept),
                    ),
                    ..before
                }),
        {
            let ghost listed = it.seq().unref();
            let ghost n = it.index();
            if !self.tracked_accounts.contains_shard(*shard_id)
                && !self.tracked_shards.contains(shard_id) {
                self.actual_tracked_shards.remove(shard_id);
            }
            proof {
                lemma_take_next(listed, n);
                assert(self@.actual_tracked_shards =~= before.actual_tracked_shards.difference(
                    listed.take(n + 1).to_set().difference(kept),
                ));
            }
        }
    }

    /// Carries out what is pending, where `placed` says which shard each pending account is in. An
    /// account is taken out of the shard that `placed` gives for it, and out of no other.
    pub fn flush_placed(&mut self, placed: &[(AccountId, ShardId)])
        requires
            old(self).wf(),
        ensures
            final(self).wf(),
            final(self)@ == old(self)@.flush(listed_placements(placed@)),
    {
        let ghost before = self@;
        let mut shards_to_remove: HashSet<ShardId> = HashSet::new();
        let mut i: usize = 0;
        proof {
            assert(listed_placements(placed@.take(0)) =~= Set::<(Seq<char>, ShardId)>::empty());
            lemma_without_none(before.tracked_accounts);
        }
        while i < placed.len()
            invariant
                i <= placed@.len(),
                before.wf(),
                self.collections_wf(),
                self@ == (TrackerState {
                    tracked_accounts: without_placements(
                        before.tracked_accounts,
                        listed_placements(placed@.take(i as int)),
                    ),
                    ..before
                }),
                shards_to_remove@ == before.tracked_accounts.dom().difference(
                    self@.tracked_accounts.dom(),
                ),
            decreases placed@.len() - i,
        {
            let ghost last = self@.tracked_accounts;
            let ghost pair = (placed@[i as int].0@, placed@[i as int].1);
            let emptied = self.tracked_accounts.remove(&placed[i].0, placed[i].1);
            if emptied {
                shards_to_remove.insert(placed[i].1);
            }
            proof {
                let taken = listed_placements(placed@.take(i as int));
                lemma_listed_push(placed@, i as int);
                lemma_without_more(before.tracked_accounts, taken, set![pair]);
                assert(taken.union(set![pair]) =~= taken.insert(pair));
                lemma_without_no_empty_entry(before.tracked_accounts, taken);
                lemma_without_one(last, pair.0, pair.1);
                lemma_without_shrinks(before.tracked_accounts, taken);
                assert(shards_to_remove@ =~= before.tracked_accounts.dom().difference(
                    self@.tracked_accounts.dom(),
                ));
            }
            i += 1;
        }
        proof {
            assert(placed@.take(i as int) =~= placed@);
            lemma_without_no_empty_entry(before.tracked_accounts, listed_placements(placed@));
            lemma_without_shrinks(before.tracked_accounts, listed_placements(placed@));
        }
        self.pending_untracked_accounts.clear();
        remove_all(&mut self.tracked_shards, &self.pending_untracked_shards);
        insert_all(&mut shards_to_remove, &self.pending_untracked_shards);
        self.pending_untracked_shards.clear();
        self.drop_untracked(&shards_to_remove);
        assert(self@ =~= before.flush(listed_placements(placed@)));
    }

    /// Asks for the shard of each pending account at the block `prev_block_hash`. Stops at the
    /// first error.
    fn place_pending<E, F: Fn(&AccountId, &CryptoHash) -> Result<ShardId, E>>(
        &self,
        prev_block_hash: &CryptoHash,
        account_id_to_shard_id: F,
    ) -> (result: Result<Vec<(AccountId, ShardId)>, E>)
        requires
            self.wf(),
            can_place(account_id_to_shard_id, *prev_block_hash),
        ensures
            match result {
                Ok(placed) => exists|placement: Map<Seq<char>, ShardId>| #[trigger]
                    may_place_all(
                        account_id_to_shard_id,
                        self@.pending_untracked_accounts,
                        *prev_block_hash,
                        placement,
                    ) && listed_placements(placed@) == mapped_placements(placement),
                Err(e) => may_fail(
                    account_id_to_shard_id,
                    self@.pending_untracked_accounts,
                    *prev_block_hash,
                    e,
                ),
            },
    {
        let ghost names = self.pending_untracked_accounts.names();
        let ghost mut placement: Map<Seq<char>, ShardId> = Map::empty();
        let mut placed: Vec<(AccountId, ShardId)> = Vec::new();
        let mut i: usize = 0;
        while i < self.pending_untracked_accounts.len()
            invariant
                i <= names.len(),
                names == self.pending_untracked_accounts.names(),
                names.no_duplicates(),
                can_place(account_id_to_shard_id, *prev_block_hash),
                placed.len() == i,
                forall|j: int|
                    0 <= j < i ==> {
                        &&& (#[trigger] placed@[j]).0@ == names[j]
                        &&& placement.contains_key(names[j])
                        &&& may_place(
                            account_id_to_shard_id,
                            names[j],
                            *prev_block_hash,
                            Ok(placed@[j].1),
                        )
                    },
                forall|j: int| 0 <= j < i ==> (#[trigger] placed@[j]).1 == placement[names[j]],
                placement.dom() == names.take(i as int).to_set(),
            decreases names.len() - i,
        {
            let account_id = self.pending_untracked_accounts.get(i);
            assert(names.to_set().contains(names[i as int]));
            match account_id_to_shard_id(account_id, prev_block_hash) {
                Ok(shard_id) => {
                    placed.push((account_id.clone(), shard_id));
                    proof {
                        placement = placement.insert(account_id@, shard_id);
                        lemma_take_next(names, i as int);
                        assert(placement.dom() =~= names.take(i + 1).to_set());
                    }
                },
                Err(e) => {
                    assert(may_place(
                        account_id_to_shard_id,
                        names[i as int],
                        *prev_block_hash,
                        Err(e),
                    ));
                    return Err(e);
                },
            }
            i += 1;
        }
        proof {
            assert(names.take(i as int) =~= names);
            assert forall|name: Seq<char>| #[trigger] self@.pending_untracked_accounts.contains(
                name,
            ) implies may_place(
                account_id_to_shard_id,
                name,
                *prev_block_hash,
                Ok(placement[name]),
            ) by {
                let j = choose|j: int| 0 <= j < names.len() && names[j] == name;
                assert(placed@[j].0@ == name);
            }
            assert(may_place_all(
                account_id_to_shard_id,
                self@.pending_untracked_accounts,
                *prev_block_hash,
                placement,
            ));
            lemma_listed_is_mapped(placed@, names, placement);
        }
        Ok(placed)
    }

    /// Carries out what is pending, at the block `prev_block_hash`. An error leaves everything as
    /// it is.
    pub fn flush_pending<E, F: Fn(&AccountId, &CryptoHash) -> Result<ShardId, E>>(
        &mut self,
        prev_block_hash: &CryptoHash,
        account_id_to_shard_id: F,
    ) -> (result: Result<(), E>)
        requires
            old(self).wf(),
            can_place(account_id_to_shard_id, *prev_block_hash),
        ensures
            final(self).wf(),
            may_flush(
                old(self)@,
                final(self)@,
                account_id_to_shard_id,
                *prev_block_hash,
                result,
            ),
    {
        match self.place_pending(prev_block_hash, account_id_to_shard_id) {
            Ok(placed) => {
                self.flush_placed(&placed);
                Ok(())
            },
            Err(e) => Err(e),
        }
    }

    /// Brings the tracker to `epoch_id`. If that is another epoch, carries out what is pending,
    /// where `placed` says which shard each pending account is in.
    pub fn enter_epoch(&mut self, epoch_id: EpochId, placed: &[(AccountId, ShardId)])
        requires
            old(self).wf(),
        ensures
            final(self).wf(),
            final(self)@ == old(self)@.enter_epoch(epoch_id, listed_placements(placed@)),
    {
        if self.current_epoch_id != epoch_id {
            self.flush_placed(placed);
            self.current_epoch_id = epoch_id;
        }
    }

    /// Brings the tracker to the epoch of the block `block_hash`. If that is another epoch, what is
    /// pending is carried out. An error leaves everything as it is.
    pub fn update_epoch<
        E,
        G: Fn(&CryptoHash) -> Result<EpochId, E>,
        F: Fn(&AccountId, &CryptoHash) -> Result<ShardId, E>,
    >(&mut self, block_hash: &CryptoHash, get_epoch_id: G, account_id_to_shard_id: F) -> (result:
        Result<(), E>)
        requires
            old(self).wf(),
            call_requires(get_epoch_id, (block_hash,)),
            can_place(account_id_to_shard_id, *block_hash),
        ensures
            final(self).wf(),
            may_update(
                old(self)@,
                final(self)@,
                get_epoch_id,
                account_id_to_shard_id,
                *block_hash,
                result,
            ),
            match result {
                Ok(_) => call_ensures(
                    get_epoch_id,
                    (block_hash,),
                    Ok::<EpochId, E>(final(self)@.current_epoch_id),
                ),
                Err(_) => final(self)@ == old(self)@,
            },
    {
        let epoch_id = match get_epoch_id(block_hash) {
            Ok(epoch_id) => epoch_id,
            Err(e) => {
                return Err(e);
            },
        };
        if self.current_epoch_id != epoch_id {
            match self.place_pending(block_hash, account_id_to_shard_id) {
                Ok(placed) => self.enter_epoch(epoch_id, &placed),
                Err(e) => {
                    return Err(e);
                },
            }
        }
        Ok(())
    }

    /// Makes the next epoch stop tracking a list of accounts.
    pub fn mark_accounts(&mut self, account_ids: Vec<AccountId>)
        requires
            old(self).wf(),
        ensures
            final(self).wf(),
            final(self)@ == old(self)@.mark_accounts(names_of(account_ids@)),
            final(self)@.pending_untracked_accounts == old(self)@.pending_untracked_accounts.union(
                names_of(account_ids@),
            ),
    {
        let ghost before = self@;
        let ghost names = account_ids@.map_values(|id: AccountId| id@);
        assert(self@ =~= before.mark_accounts(names.take(0).to_set()));
        for account_id in it: account_ids
            invariant
                it.seq() == account_ids@,
                names == account_ids@.map_values(|id: AccountId| id@),
                self.wf(),
                self@ == before.mark_accounts(names.take(it.index()).to_set()),
        {
            let ghost n = it.index();
            self.pending_untracked_accounts.insert(account_id);
            proof {
                lemma_take_next(names, n);
                assert(self@ =~= before.mark_accounts(names.take(n + 1).to_set()));
            }
        }
        assert(names.take(names.len() as int) =~= names);
    }

    /// Stop tracking a list of accounts in the next epoch. Brings the tracker to the epoch of the
    /// block `block_hash` before. An error leaves everything as it is.
    pub fn untrack_accounts<
        E,
        G: Fn(&CryptoHash) -> Result<EpochId, E>,
        F: Fn(&AccountId, &CryptoHash) -> Result<ShardId, E>,
    >(
        &mut self,
        block_hash: &CryptoHash,
        account_ids: Vec<AccountId>,
        get_epoch_id: G,
        account_id_to_shard_id: F,
    ) -> (result: Result<(), E>)
        requires
            old(self).wf(),
            call_requires(get_epoch_id, (block_hash,)),
            can_place(account_id_to_shard_id, *block_hash),
        ensures
            final(self).wf(),
            exists|updated: TrackerState| #[trigger]
                may_update(
                    old(self)@,
                    updated,
                    get_epoch_id,
                    account_id_to_shard_id,
                    *block_hash,
                    result,
                ) && final(self)@ == (if result is Ok {
                    updated.mark_accounts(names_of(account_ids@))
                } else {
                    updated
                }),
            match result {
                Ok(_) => {
                    &&& call_ensures(
                        get_epoch_id,
                        (block_hash,),
                        Ok::<EpochId, E>(final(self)@.current_epoch_id),
                    )
                    &&& if final(self)@.current_epoch_id == old(self)@.current_epoch_id {
                        final(self)@.pending_untracked_accounts == old(self)@.pending_untracked_accounts.union(
                            names_of(account_ids@),
                        )
                    } else {
                        final(self)@.pending_untracked_accounts == names_of(account_ids@)
                    }
                },
                Err(_) => final(self)@ == old(self)@,
            },
    {
        let result = self.update_epoch(block_hash, get_epoch_id, account_id_to_shard_id);
        let ghost updated = self@;
        if result.is_ok() {
            self.mark_accounts(account_ids);
        }
        assert(may_update(
            old(self)@,
            updated,
            get_epoch_id,
            account_id_to_shard_id,
            *block_hash,
            result,
        ));
        result
    }

    /// Makes the next epoch stop tracking a list of shards.
    pub fn mark_shards(&mut self, shard_ids: Vec<ShardId>)
        requires
            old(self).wf(),
        ensures
            final(self).wf(),
            final(self)@ == old(self)@.mark_shards(shard_ids@.to_set()),
            final(self)@.pending_untracked_shards == old(self)@.pending_untracked_shards.union(
                shard_ids@.to_set(),
            ),
    {
        insert_listed(&mut self.pending_untracked_shards, &shard_ids);
    }

    /// Stop tracking a list of shards in the next epoch. Brings the tracker to the epoch of the
    /// block `block_hash` before. An error leaves everything as it is.
    pub fn untrack_shards<
        E,
        G: Fn(&CryptoHash) -> Result<EpochId, E>,
        F: Fn(&AccountId, &CryptoHash) -> Result<ShardId, E>,
    >(
        &mut self,
        block_hash: &CryptoHash,
        shard_ids: Vec<ShardId>,
        get_epoch_id: G,
        account_id_to_shard_id: F,
    ) -> (result: Result<(), E>)
        requires
            old(self).wf(),
            call_requires(get_epoch_id, (block_hash,)),
            can_place(account_id_to_shard_id, *block_hash),
        ensures
            final(self).wf(),
            exists|updated: TrackerState| #[trigger]
                may_update(
                    old(self)@,
                    updated,
                    get_epoch_id,
                    account_id_to_shard_id,
                    *block_hash,
                    result,
                ) && final(self)@ == (if result is Ok {
                    updated.mark_shards(shard_ids@.to_set())
                } else {
                    updated
                }),
            match result {
                Ok(_) => {
                    &&& call_ensures(
                        get_epoch_id,
                        (block_hash,),
                        Ok::<EpochId, E>(final(self)@.current_epoch_id),
                    )
                    &&& if final(self)@.current_epoch_id == old(self)@.current_epoch_id {
                        final(self)@.pending_untracked_shards == old(self)@.pending_untracked_shards.union(
                            shard_ids@.to_set(),
                        )
                    } else {
                        final(self)@.pending_untracked_shards == shard_ids@.to_set()
                    }
                },
                Err(_) => final(self)@ == old(self)@,
            },
    {
        let result = self.update_epoch(block_hash, get_epoch_id, account_id_to_shard_id);
        let ghost updated = self@;
        if result.is_ok() {
            self.mark_shards(shard_ids);
        }
        assert(may_update(
            old(self)@,
            updated,
            get_epoch_id,
            account_id_to_shard_id,
            *block_hash,
            result,
        ));
        result
    }

    /// Whether a node cares about `shard_id`. `account_cares_about_shard` says whether its account
    /// does, if it has one; `is_me` whether it is the node that the tracker belongs to.
    pub fn decide_care(
        &self,
        account_cares_about_shard: Option<bool>,
        shard_id: ShardId,
        is_me: bool,
    ) -> (cares: bool)
        ensures
            cares == self@.cares(account_cares_about_shard, shard_id, is_me),
    {
        match account_cares_about_shard {
            Some(account_cares_about_shard) => {
                if !is_me {
                    return account_cares_about_shard;
                }
                account_cares_about_shard || self.actual_tracked_shards.contains(&shard_id)
            },
            None => self.actual_tracked_shards.contains(&shard_id),
        }
    }

    /// Whether a node cares about `shard_id` at the block after `parent_hash`. `account_id` is its
    /// account, if it has one; `is_me` says whether it is the node that the tracker belongs to. An
    /// account for which there is an error does not care.
    pub fn care_about_shard<E, C: Fn(&CryptoHash, &AccountId, ShardId) -> Result<bool, E>>(
        &self,
        account_id: Option<&AccountId>,
        parent_hash: &CryptoHash,
        shard_id: ShardId,
        is_me: bool,
        cares_about_shard_from_prev_block: C,
    ) -> (cares: bool)
        requires
            account_id matches Some(id) ==> call_requires(
                cares_about_shard_from_prev_block,
                (parent_hash, id, shard_id),
            ),
        ensures
            match account_id {
                None => cares == self@.cares(None, shard_id, is_me),
                Some(id) => exists|answer: Result<bool, E>|
                    {
                        &&& #[trigger] call_ensures(
                            cares_about_shard_from_prev_block,
                            (parent_hash, id, shard_id),
                            answer,
                        )
                        &&& cares == self@.cares(Some(says_yes(answer)), shard_id, is_me)
                    },
            },
            account_id is None ==> cares == self@.actual_tracked_shards.contains(shard_id),
            is_me && self@.actual_tracked_shards.contains(shard_id) ==> cares,
    {
        match account_id {
            Some(account_id) => {
                let answer = cares_about_shard_from_prev_block(parent_hash, account_id, shard_id);
                let account_cares_about_shard = matches!(answer, Ok(true));
                self.decide_care(Some(account_cares_about_shard), shard_id, is_me)
            },
            None => self.decide_care(None, shard_id, is_me),
        }
    }

    /// Whether a node will care about `shard_id` in the next epoch. `account_cares_about_shard`
    /// says whether its account will, if it has one; `placed` which shard each pending account is
    /// in; `is_me` whether it is the node that the tracker belongs to.
    pub fn decide_will_care(
        &self,
        account_cares_about_shard: Option<bool>,
        placed: &[(AccountId, ShardId)],
        shard_id: ShardId,
        is_me: bool,
    ) -> (will_care: bool)
        requires
            self.wf(),
        ensures
            will_care == self@.flush(listed_placements(placed@)).cares(
                account_cares_about_shard,
                shard_id,
                is_me,
            ),
    {
        let mut tracker = self.clone();
        tracker.flush_placed(placed);
        tracker.decide_care(account_cares_about_shard, shard_id, is_me)
    }

    /// Whether a node will care about `shard_id` in the next epoch, at the block after
    /// `parent_hash`. `account_id` is its account, if it has one; `is_me` says whether it is the
    /// node that the tracker belongs to. An account for which there is an error will not care.
    pub fn will_care_about_shard<
        E: core::fmt::Debug,
        C: Fn(&CryptoHash, &AccountId, ShardId) -> Result<bool, E>,
        F: Fn(&AccountId, &CryptoHash) -> Result<ShardId, E>,
    >(
        &self,
        account_id: Option<&AccountId>,
        parent_hash: &CryptoHash,
        shard_id: ShardId,
        is_me: bool,
        cares_about_shard_next_epoch_from_prev_block: C,
        account_id_to_shard_id: F,
    ) -> (will_care: bool)
        requires
            self.wf(),
            account_id matches Some(id) ==> call_requires(
                cares_about_shard_next_epoch_from_prev_block,
                (parent_hash, id, shard_id),
            ),
            can_place(account_id_to_shard_id, *parent_hash),
            may_ask_tracker(
                account_id,
                *parent_hash,
                shard_id,
                is_me,
                cares_about_shard_next_epoch_from_prev_block,
            ) ==> places_all(
                account_id_to_shard_id,
                self@.pending_untracked_accounts,
                *parent_hash,
            ),
        ensures
            match account_id {
                None => may_care(
                    self@,
                    None,
                    account_id_to_shard_id,
                    *parent_hash,
                    shard_id,
                    is_me,
                    will_care,
                ),
                Some(id) => exists|answer: Result<bool, E>|
                    {
                        &&& #[trigger] call_ensures(
                            cares_about_shard_next_epoch_from_prev_block,
                            (parent_hash, id, shard_id),
                            answer,
                        )
                        &&& if says_yes(answer) || !is_me {
                            will_care == says_yes(answer)
                        } else {
                            may_care(
                                self@,
                                Some(false),
                                account_id_to_shard_id,
                                *parent_hash,
                                shard_id,
                                is_me,
                                will_care,
                            )
                        }
                    },
            },
            account_id is None && will_care ==> self@.actual_tracked_shards.contains(shard_id),
            (account_id is None || is_me) && self@.tracked_shards.contains(shard_id)
                && !self@.pending_untracked_shards.contains(shard_id) ==> will_care,
            (account_id is None || is_me) && self@.tracked_accounts.contains_key(shard_id) && (
            exists|name: Seq<char>| #[trigger]
                self@.tracked_accounts[shard_id].contains(name)
                    && !self@.pending_untracked_accounts.contains(name)) ==> will_care,
    {
        let mut account_cares_about_shard: Option<bool> = None;
        if let Some(account_id) = account_id {
            let answer = cares_about_shard_next_epoch_from_prev_block(
                parent_hash,
                account_id,
                shard_id,
            );
            let cares = matches!(answer, Ok(true));
            if !is_me || cares {
                return cares;
            }
            account_cares_about_shard = Some(cares);
        }
        let placed = self.place_pending(parent_hash, account_id_to_shard_id).unwrap();
        proof {
            let placements = listed_placements(placed@);
            law_flush(self@, placements);
            assert forall|name: Seq<char>|
                self@.tracked_accounts.contains_key(shard_id)
                    && #[trigger] self@.tracked_accounts[shard_id].contains(name)
                    && !self@.pending_untracked_accounts.contains(name) implies self@.flush(
                placements,
            ).actual_tracked_shards.contains(shard_id) by {
                assert(is_tracked(self@, name, shard_id) && !placements.contains((name, shard_id)));
            }
        }
        self.decide_will_care(account_cares_about_shard, &placed, shard_id, is_me)
    }

    /// The shards that are tracked.
    pub fn actual_tracked_shards(&self) -> (shards: &HashSet<ShardId>)
        ensures
            shards@ == self@.actual_tracked_shards,
    {
        &self.actual_tracked_shards
    }
}

} // verus!
