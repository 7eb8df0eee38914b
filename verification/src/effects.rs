//! What each operation does to a tracker, element by element.
//!
//! Every statement here is in terms of what an operation is given, what the epoch manager answered,
//! and what the tracker holds before and after. An account is tracked in a shard when the shard has
//! an entry and the account's name is in it.

use vstd::prelude::*;

use crate::lookup::{
    can_place, may_answer, may_ask_tracker, may_care, may_fail, may_flush, may_place,
    may_place_all, may_update, may_update_to, places_all, says_yes,
};
use crate::placement::{
    accounts_in, answered_placements, listed_placements, mapped_placements, names_of, placed_shards,
};
use crate::state::TrackerState;
use crate::types::{AccountId, CryptoHash, EpochId, ShardId};

verus! {

/// Whether the account called `n` is tracked in the shard `s`.
pub open spec fn is_tracked(state: TrackerState, n: Seq<char>, s: ShardId) -> bool {
    state.tracked_accounts.contains_key(s) && state.tracked_accounts[s].contains(n)
}

/// An account is tracked in a shard when the shard has an entry and the account's name is in it.
pub proof fn law_is_tracked(state: TrackerState, n: Seq<char>, s: ShardId)
    ensures
        is_tracked(state, n, s) ==> state.tracked_accounts.contains_key(s),
        is_tracked(state, n, s) ==> state.tracked_accounts[s].contains(n),
        state.tracked_accounts.contains_key(s) && state.tracked_accounts[s].contains(n)
            ==> is_tracked(state, n, s),
{
}

/// A well-formed tracker tracks exactly the shards that are tracked for their own sake and those
/// that have an entry, and every entry has an account; and whatever is so is well-formed.
pub proof fn law_well_formed(state: TrackerState)
    ensures
        state.wf() <==> {
            &&& forall|s: ShardId| #[trigger]
                state.actual_tracked_shards.contains(s) <==> state.tracked_shards.contains(s)
                    || state.tracked_accounts.contains_key(s)
            &&& forall|s: ShardId| #[trigger]
                state.tracked_accounts.contains_key(s) ==> exists|n: Seq<char>|
                    state.tracked_accounts[s].contains(n)
        },
{
    if forall|s: ShardId| #[trigger]
        state.actual_tracked_shards.contains(s) <==> state.tracked_shards.contains(s)
            || state.tracked_accounts.contains_key(s) {
        assert(state.actual_tracked_shards =~= state.tracked_accounts.dom().union(
            state.tracked_shards,
        ));
    }
}

/// The names of a list of accounts are those that an account of the list has.
pub proof fn law_names(ids: Seq<AccountId>)
    ensures
        forall|n: Seq<char>| #[trigger]
            names_of(ids).contains(n) <==> exists|i: int| 0 <= i < ids.len() && ids[i]@ == n,
{
    let names = ids.map_values(|id: AccountId| id@);
    assert forall|n: Seq<char>| #[trigger]
        names_of(ids).contains(n) <==> exists|i: int| 0 <= i < ids.len() && ids[i]@ == n by {
        if names_of(ids).contains(n) {
            let i = choose|i: int| 0 <= i < names.len() && names[i] == n;
            assert(ids[i]@ == n);
        }
        if exists|i: int| 0 <= i < ids.len() && ids[i]@ == n {
            let i = choose|i: int| 0 <= i < ids.len() && ids[i]@ == n;
            assert(names[i] == n);
        }
    }
}

/// A new tracker of `ids` and `shards` tracks for their own sake exactly the shards of the list,
/// tracks each account exactly in the shard that the epoch manager answered for it, tracks exactly
/// those shards and the ones of the list, has nothing pending and is in the epoch it was given.
pub proof fn law_new_tracker<E, F: Fn(&AccountId, &CryptoHash) -> Result<ShardId, E>>(
    ids: Seq<AccountId>,
    shards: Seq<ShardId>,
    block_hash: CryptoHash,
    epoch_id: EpochId,
    shard_of: F,
    answers: Seq<Result<ShardId, E>>,
)
    requires
        may_answer(shard_of, ids, block_hash, answers),
    ensures
        answers.len() == ids.len(),
        forall|i: int|
            0 <= i < ids.len() ==> call_ensures(
                shard_of,
                (&ids[i], &block_hash),
                #[trigger] answers[i],
            ),
        ({
            let new = TrackerState::initial(shards.to_set(), epoch_id).track_accounts(
                answered_placements(ids, answers),
            );
            &&& forall|s: ShardId| #[trigger] new.tracked_shards.contains(s) <==> shards.contains(s)
            &&& forall|s: ShardId, n: Seq<char>|
                #[trigger] is_tracked(new, n, s) <==> exists|i: int|
                    0 <= i < ids.len() && ids[i]@ == n && #[trigger] answers[i] == Ok::<
                        ShardId,
                        E,
                    >(s)
            &&& forall|s: ShardId| #[trigger]
                new.actual_tracked_shards.contains(s) <==> shards.contains(s) || exists|i: int|
                    0 <= i < ids.len() && #[trigger] answers[i] == Ok::<ShardId, E>(s)
            &&& forall|n: Seq<char>| !(#[trigger] new.pending_untracked_accounts.contains(n))
            &&& forall|s: ShardId| !(#[trigger] new.pending_untracked_shards.contains(s))
            &&& new.current_epoch_id == epoch_id
        }),
{
    let initial = TrackerState::initial(shards.to_set(), epoch_id);
    let new = initial.track_accounts(answered_placements(ids, answers));
    law_track_accounts(initial, ids, block_hash, shard_of, answers);
    assert(forall|s: ShardId| !(#[trigger] initial.tracked_accounts.contains_key(s)));
    assert forall|s: ShardId| #[trigger]
        new.actual_tracked_shards.contains(s) <==> shards.contains(s) || exists|i: int|
            0 <= i < ids.len() && #[trigger] answers[i] == Ok::<ShardId, E>(s) by {
        assert(initial.actual_tracked_shards.contains(s) <==> shards.contains(s));
    }
}

/// Tracking a list of accounts tracks each exactly in the shard that the epoch manager answered for
/// it, if it answered one, keeps what was tracked, and changes nothing else.
pub proof fn law_track_accounts<E, F: Fn(&AccountId, &CryptoHash) -> Result<ShardId, E>>(
    state: TrackerState,
    ids: Seq<AccountId>,
    block_hash: CryptoHash,
    shard_of: F,
    answers: Seq<Result<ShardId, E>>,
)
    requires
        may_answer(shard_of, ids, block_hash, answers),
    ensures
        answers.len() == ids.len(),
        forall|i: int|
            0 <= i < ids.len() ==> call_ensures(
                shard_of,
                (&ids[i], &block_hash),
                #[trigger] answers[i],
            ),
        ({
            let after = state.track_accounts(answered_placements(ids, answers));
            &&& forall|s: ShardId, n: Seq<char>|
                #[trigger] is_tracked(after, n, s) <==> {
                    ||| is_tracked(state, n, s)
                    ||| exists|i: int|
                        0 <= i < ids.len() && ids[i]@ == n && #[trigger] answers[i] == Ok::<
                            ShardId,
                            E,
                        >(s)
                }
            &&& forall|s: ShardId| #[trigger]
                after.actual_tracked_shards.contains(s) <==> {
                    ||| state.actual_tracked_shards.contains(s)
                    ||| exists|i: int|
                        0 <= i < ids.len() && #[trigger] answers[i] == Ok::<ShardId, E>(s)
                }
            &&& after.tracked_shards == state.tracked_shards
            &&& after.pending_untracked_accounts == state.pending_untracked_accounts
            &&& after.pending_untracked_shards == state.pending_untracked_shards
            &&& after.current_epoch_id == state.current_epoch_id
        }),
{
    let placements = answered_placements(ids, answers);
    let after = state.track_accounts(placements);
    assert forall|s: ShardId, n: Seq<char>| #[trigger]
        placements.contains((n, s)) <==> exists|i: int|
            0 <= i < ids.len() && ids[i]@ == n && #[trigger] answers[i] == Ok::<ShardId, E>(s) by {
        if exists|i: int|
            0 <= i < ids.len() && ids[i]@ == n && #[trigger] answers[i] == Ok::<ShardId, E>(s) {
            let i = choose|i: int|
                0 <= i < ids.len() && ids[i]@ == n && #[trigger] answers[i] == Ok::<ShardId, E>(s);
            assert(ids[i]@ == n);
        }
        if placements.contains((n, s)) {
            let i = choose|i: int|
                0 <= i < ids.len() && (#[trigger] ids[i])@ == n && answers[i] == Ok::<ShardId, E>(
                    s,
                );
            assert(answers[i] == Ok::<ShardId, E>(s));
        }
    }
    law_track_placements(state, placements);
    assert forall|s: ShardId, n: Seq<char>|
        #[trigger] is_tracked(after, n, s)
            <==> (is_tracked(state, n, s)
            || exists|i: int|
            0 <= i < ids.len() && ids[i]@ == n && #[trigger] answers[i] == Ok::<ShardId, E>(s)) by {
        assert(placements.contains((n, s)) <==> exists|i: int|
            0 <= i < ids.len() && ids[i]@ == n && #[trigger] answers[i] == Ok::<ShardId, E>(s));
    }
    assert forall|s: ShardId| #[trigger]
        after.actual_tracked_shards.contains(s) <==> state.actual_tracked_shards.contains(s)
            || exists|i: int|
            0 <= i < ids.len() && #[trigger] answers[i] == Ok::<ShardId, E>(s) by {
        if exists|n: Seq<char>| placements.contains((n, s)) {
            let n = choose|n: Seq<char>| placements.contains((n, s));
            assert(placements.contains((n, s)));
        }
        if exists|i: int| 0 <= i < ids.len() && #[trigger] answers[i] == Ok::<ShardId, E>(s) {
            let i = choose|i: int|
                0 <= i < ids.len() && #[trigger] answers[i] == Ok::<ShardId, E>(s);
            assert(placements.contains((ids[i]@, s)));
        }
    }
}

/// Tracking accounts that are placed tracks each in the shards that it is placed in, keeps what was
/// tracked, and changes nothing else.
pub proof fn law_track_placements(state: TrackerState, placements: Set<(Seq<char>, ShardId)>)
    ensures
        ({
            let after = state.track_accounts(placements);
            &&& forall|s: ShardId, n: Seq<char>|
                #[trigger] is_tracked(after, n, s) <==> {
                    ||| is_tracked(state, n, s)
                    ||| placements.contains((n, s))
                }
            &&& forall|s: ShardId| #[trigger]
                after.actual_tracked_shards.contains(s) <==> {
                    ||| state.actual_tracked_shards.contains(s)
                    ||| exists|n: Seq<char>| placements.contains((n, s))
                }
            &&& after.tracked_shards == state.tracked_shards
            &&& after.pending_untracked_accounts == state.pending_untracked_accounts
            &&& after.pending_untracked_shards == state.pending_untracked_shards
            &&& after.current_epoch_id == state.current_epoch_id
        }),
{
    let after = state.track_accounts(placements);
    assert forall|s: ShardId, n: Seq<char>|
        #[trigger] is_tracked(after, n, s)
            <==> (is_tracked(state, n, s)
            || placements.contains((n, s))) by {
        if placements.contains((n, s)) {
            assert(placed_shards(placements).contains(s));
        }
    }
}

/// A list of pairs places exactly the accounts that it lists, each in the shard beside it.
pub proof fn law_listed(list: Seq<(AccountId, ShardId)>)
    ensures
        forall|n: Seq<char>, s: ShardId| #[trigger]
            listed_placements(list).contains((n, s)) <==> exists|i: int|
                0 <= i < list.len() && (#[trigger] list[i]).0@ == n && list[i].1 == s,
{
}

/// A tracker of placed accounts and of shards tracks for their own sake exactly the shards of the
/// list, tracks each account exactly in the shards that it is listed with, tracks exactly those
/// shards and the ones of the list, has nothing pending and is in the epoch it was given.
pub proof fn law_tracker_with_placed(
    list: Seq<(AccountId, ShardId)>,
    shards: Seq<ShardId>,
    epoch_id: EpochId,
)
    ensures
        ({
            let new = TrackerState::initial(shards.to_set(), epoch_id).track_accounts(
                listed_placements(list),
            );
            &&& forall|s: ShardId| #[trigger] new.tracked_shards.contains(s) <==> shards.contains(s)
            &&& forall|s: ShardId, n: Seq<char>| #[trigger]
                is_tracked(new, n, s) <==> exists|i: int|
                    0 <= i < list.len() && (#[trigger] list[i]).0@ == n && list[i].1 == s
            &&& forall|s: ShardId| #[trigger]
                new.actual_tracked_shards.contains(s) <==> shards.contains(s) || exists|i: int|
                    0 <= i < list.len() && (#[trigger] list[i]).1 == s
            &&& forall|n: Seq<char>| !(#[trigger] new.pending_untracked_accounts.contains(n))
            &&& forall|s: ShardId| !(#[trigger] new.pending_untracked_shards.contains(s))
            &&& new.current_epoch_id == epoch_id
        }),
{
    let initial = TrackerState::initial(shards.to_set(), epoch_id);
    let placements = listed_placements(list);
    let new = initial.track_accounts(placements);
    law_listed(list);
    law_track_placements(initial, placements);
    assert forall|s: ShardId| #[trigger]
        new.actual_tracked_shards.contains(s) <==> shards.contains(s) || exists|i: int|
            0 <= i < list.len() && (#[trigger] list[i]).1 == s by {
        assert(initial.actual_tracked_shards.contains(s) <==> shards.contains(s));
        if exists|n: Seq<char>| placements.contains((n, s)) {
            let n = choose|n: Seq<char>| placements.contains((n, s));
            let i = choose|i: int|
                0 <= i < list.len() && (#[trigger] list[i]).0@ == n && list[i].1 == s;
            assert(list[i].1 == s);
        }
        if exists|i: int| 0 <= i < list.len() && (#[trigger] list[i]).1 == s {
            let i = choose|i: int| 0 <= i < list.len() && (#[trigger] list[i]).1 == s;
            assert(placements.contains((list[i].0@, s)));
        }
    }
    assert forall|s: ShardId, n: Seq<char>| #[trigger]
        is_tracked(new, n, s) <==> exists|i: int|
            0 <= i < list.len() && (#[trigger] list[i]).0@ == n && list[i].1 == s by {
        assert(!is_tracked(initial, n, s));
        assert(placements.contains((n, s)) <==> exists|i: int|
            0 <= i < list.len() && (#[trigger] list[i]).0@ == n && list[i].1 == s);
    }
}

/// Tracking a list of shards tracks each for its own sake, keeps what was tracked, and changes
/// nothing else.
pub proof fn law_track_shards(state: TrackerState, shards: Seq<ShardId>)
    ensures
        ({
            let after = state.track_shards(shards.to_set());
            &&& forall|s: ShardId| #[trigger]
                after.tracked_shards.contains(s) <==> state.tracked_shards.contains(s)
                    || shards.contains(s)
            &&& forall|s: ShardId| #[trigger]
                after.actual_tracked_shards.contains(s) <==> state.actual_tracked_shards.contains(s)
                    || shards.contains(s)
            &&& after.tracked_accounts == state.tracked_accounts
            &&& after.pending_untracked_accounts == state.pending_untracked_accounts
            &&& after.pending_untracked_shards == state.pending_untracked_shards
            &&& after.current_epoch_id == state.current_epoch_id
        }),
{
}

/// Asking to untrack a list of accounts makes exactly those pending beside what was pending, so no
/// earlier request is lost, and changes nothing else.
pub proof fn law_mark_accounts(state: TrackerState, ids: Seq<AccountId>)
    ensures
        ({
            let after = state.mark_accounts(names_of(ids));
            &&& forall|n: Seq<char>| #[trigger]
                after.pending_untracked_accounts.contains(n) <==> {
                    ||| state.pending_untracked_accounts.contains(n)
                    ||| exists|i: int| 0 <= i < ids.len() && ids[i]@ == n
                }
            &&& after.tracked_accounts == state.tracked_accounts
            &&& after.tracked_shards == state.tracked_shards
            &&& after.actual_tracked_shards == state.actual_tracked_shards
            &&& after.pending_untracked_shards == state.pending_untracked_shards
            &&& after.current_epoch_id == state.current_epoch_id
        }),
{
    law_names(ids);
}

/// Asking to untrack a list of shards makes exactly those pending beside what was pending, so no
/// earlier request is lost, and changes nothing else.
pub proof fn law_mark_shards(state: TrackerState, shards: Seq<ShardId>)
    ensures
        ({
            let after = state.mark_shards(shards.to_set());
            &&& forall|s: ShardId| #[trigger]
                after.pending_untracked_shards.contains(s) <==> {
                    ||| state.pending_untracked_shards.contains(s)
                    ||| shards.contains(s)
                }
            &&& after.tracked_accounts == state.tracked_accounts
            &&& after.tracked_shards == state.tracked_shards
            &&& after.actual_tracked_shards == state.actual_tracked_shards
            &&& after.pending_untracked_accounts == state.pending_untracked_accounts
            &&& after.current_epoch_id == state.current_epoch_id
        }),
{
}

/// Carrying out what is pending takes each account out of exactly the shards that it is placed in,
/// ends the tracking of the pending shards for their own sake and of no other, and keeps exactly
/// the shards that an account or their own sake still tracks. Nothing is pending then, and the
/// epoch is the same.
pub proof fn law_flush(state: TrackerState, placements: Set<(Seq<char>, ShardId)>)
    ensures
        ({
            let after = state.flush(placements);
            &&& forall|s: ShardId, n: Seq<char>|
                #[trigger] is_tracked(after, n, s) <==> {
                    &&& is_tracked(state, n, s)
                    &&& !placements.contains((n, s))
                }
            &&& forall|s: ShardId| #[trigger]
                after.tracked_shards.contains(s) <==> state.tracked_shards.contains(s)
                    && !state.pending_untracked_shards.contains(s)
            &&& forall|s: ShardId| #[trigger]
                after.actual_tracked_shards.contains(s) <==> {
                    ||| state.tracked_shards.contains(s)
                        && !state.pending_untracked_shards.contains(s)
                    ||| exists|n: Seq<char>|
                        is_tracked(state, n, s) && !placements.contains((n, s))
                }
            &&& forall|n: Seq<char>| !(#[trigger] after.pending_untracked_accounts.contains(n))
            &&& forall|s: ShardId| !(#[trigger] after.pending_untracked_shards.contains(s))
            &&& after.current_epoch_id == state.current_epoch_id
        }),
{
    let after = state.flush(placements);
    assert forall|s: ShardId, n: Seq<char>|
        #[trigger] is_tracked(after, n, s)
            <==> (is_tracked(state, n, s)
            && !placements.contains((n, s))) by {
        if is_tracked(state, n, s)
            && !placements.contains((n, s)) {
            assert(accounts_in(state.tracked_accounts, s).contains(n));
            assert(after.tracked_accounts.contains_key(s));
        }
    }
    assert forall|s: ShardId| #[trigger]
        after.tracked_accounts.contains_key(s) <==> exists|n: Seq<char>|
            is_tracked(state, n, s)
                && !placements.contains((n, s)) by {
        if exists|n: Seq<char>|
            is_tracked(state, n, s)
                && !placements.contains((n, s)) {
            let n = choose|n: Seq<char>|
                is_tracked(state, n, s)
                    && !placements.contains((n, s));
            assert(accounts_in(state.tracked_accounts, s).contains(n) && !placements.contains(
                (n, s),
            ));
        }
        if after.tracked_accounts.contains_key(s) {
            let n = choose|n: Seq<char>|
                accounts_in(state.tracked_accounts, s).contains(n) && !placements.contains((n, s));
            assert(is_tracked(state, n, s));
        }
    }
    assert forall|s: ShardId| #[trigger]
        after.actual_tracked_shards.contains(s) <==> (state.tracked_shards.contains(s)
            && !state.pending_untracked_shards.contains(s) || exists|n: Seq<char>|
            is_tracked(state, n, s)
                && !placements.contains((n, s))) by {
        assert(after.actual_tracked_shards.contains(s) <==> after.tracked_accounts.contains_key(s)
            || after.tracked_shards.contains(s));
    }
}

/// A tracker that enters an epoch is in that epoch, whatever was pending. If it was there before,
/// nothing changes; otherwise it holds what carrying out what is pending leaves.
pub proof fn law_enter_epoch(
    state: TrackerState,
    epoch_id: EpochId,
    placements: Set<(Seq<char>, ShardId)>,
)
    ensures
        ({
            let after = state.enter_epoch(epoch_id, placements);
            let flushed = state.flush(placements);
            &&& after.current_epoch_id == epoch_id
            &&& epoch_id == state.current_epoch_id ==> after == state
            &&& epoch_id != state.current_epoch_id ==> {
                &&& after.tracked_accounts == flushed.tracked_accounts
                &&& after.tracked_shards == flushed.tracked_shards
                &&& after.actual_tracked_shards == flushed.actual_tracked_shards
                &&& after.pending_untracked_accounts == flushed.pending_untracked_accounts
                &&& after.pending_untracked_shards == flushed.pending_untracked_shards
            }
        }),
{
}

/// Bringing a tracker to the epoch of a block ends, if it succeeds, in an epoch that the epoch
/// manager may answer for the block, whatever was pending. If the tracker was in another epoch,
/// each pending account was asked for and taken out of the shard that was answered, which the
/// returned mapping gives, and nothing else was; the pending shards are no longer tracked for their
/// own sake, and the others are if they were; exactly the shards that are still tracked for their own sake or
/// for an account are tracked; and nothing is pending. If it was in that epoch, nothing changed.
pub proof fn law_update_succeeds<
    E,
    G: Fn(&CryptoHash) -> Result<EpochId, E>,
    F: Fn(&AccountId, &CryptoHash) -> Result<ShardId, E>,
>(
    before: TrackerState,
    after: TrackerState,
    epoch_of: G,
    shard_of: F,
    block_hash: CryptoHash,
) -> (placement: Map<Seq<char>, ShardId>)
    requires
        may_update(before, after, epoch_of, shard_of, block_hash, Ok::<(), E>(())),
    ensures
        call_ensures(epoch_of, (&block_hash,), Ok::<EpochId, E>(after.current_epoch_id)),
        after.current_epoch_id == before.current_epoch_id ==> after == before,
        after.current_epoch_id != before.current_epoch_id ==> {
            &&& forall|n: Seq<char>| #[trigger]
                placement.contains_key(n) <==> before.pending_untracked_accounts.contains(n)
            &&& forall|n: Seq<char>| #[trigger]
                placement.contains_key(n) ==> exists|id: &AccountId|
                    id@ == n && #[trigger] call_ensures(
                        shard_of,
                        (id, &block_hash),
                        Ok::<ShardId, E>(placement[n]),
                    )
            &&& forall|s: ShardId, n: Seq<char>| #[trigger]
                is_tracked(after, n, s) <==> is_tracked(before, n, s) && !(
                before.pending_untracked_accounts.contains(n) && placement[n] == s)
            &&& forall|s: ShardId| #[trigger]
                after.tracked_shards.contains(s) <==> before.tracked_shards.contains(s)
                    && !before.pending_untracked_shards.contains(s)
            &&& forall|s: ShardId| #[trigger]
                after.actual_tracked_shards.contains(s) <==> after.tracked_shards.contains(s)
                    || exists|n: Seq<char>| #[trigger] is_tracked(after, n, s)
            &&& forall|n: Seq<char>| !(#[trigger] after.pending_untracked_accounts.contains(n))
            &&& forall|s: ShardId| !(#[trigger] after.pending_untracked_shards.contains(s))
        },
{
    let answer = choose|answer: Result<EpochId, E>| #[trigger]
        call_ensures(epoch_of, (&block_hash,), answer) && may_update_to(
            before,
            after,
            answer,
            shard_of,
            block_hash,
            Ok::<(), E>(()),
        );
    assert(answer is Ok);
    let epoch_id = answer->Ok_0;
    assert(answer == Ok::<EpochId, E>(epoch_id));
    let placement = choose|placement: Map<Seq<char>, ShardId>| #[trigger]
        may_place_all(shard_of, before.pending_untracked_accounts, block_hash, placement) && after
            == before.enter_epoch(epoch_id, mapped_placements(placement));
    if epoch_id != before.current_epoch_id {
        law_placed_by(shard_of, before.pending_untracked_accounts, block_hash, placement);
        law_flush(before, mapped_placements(placement));
        let flushed = before.flush(mapped_placements(placement));
        assert(forall|s: ShardId, n: Seq<char>| #[trigger]
            is_tracked(after, n, s) <==> is_tracked(flushed, n, s));
        assert forall|s: ShardId| #[trigger]
            after.actual_tracked_shards.contains(s) <==> after.tracked_shards.contains(s)
                || exists|n: Seq<char>| #[trigger] is_tracked(after, n, s) by {
            assert(flushed.actual_tracked_shards == after.actual_tracked_shards);
            assert(flushed.tracked_shards.contains(s) == after.tracked_shards.contains(s));
            if exists|n: Seq<char>|
                is_tracked(before, n, s) && !mapped_placements(placement).contains((n, s)) {
                let n = choose|n: Seq<char>|
                    is_tracked(before, n, s) && !mapped_placements(placement).contains((n, s));
                assert(is_tracked(after, n, s));
            }
            if exists|n: Seq<char>| #[trigger] is_tracked(after, n, s) {
                let n = choose|n: Seq<char>| #[trigger] is_tracked(after, n, s);
                assert(is_tracked(before, n, s) && !mapped_placements(placement).contains((n, s)));
            }
        }
    }
    placement
}

/// A mapping that the epoch manager may give of a set of names gives each name a shard that it may
/// answer for an account of that name, and gives no other name one.
pub proof fn law_placed_by<E, F: Fn(&AccountId, &CryptoHash) -> Result<ShardId, E>>(
    shard_of: F,
    names: Set<Seq<char>>,
    block_hash: CryptoHash,
    placement: Map<Seq<char>, ShardId>,
)
    requires
        may_place_all(shard_of, names, block_hash, placement),
    ensures
        forall|n: Seq<char>| #[trigger] placement.contains_key(n) <==> names.contains(n),
        forall|n: Seq<char>| #[trigger]
            placement.contains_key(n) ==> exists|id: &AccountId|
                id@ == n && #[trigger] call_ensures(
                    shard_of,
                    (id, &block_hash),
                    Ok::<ShardId, E>(placement[n]),
                ),
        forall|n: Seq<char>, s: ShardId| #[trigger]
            mapped_placements(placement).contains((n, s)) <==> names.contains(n) && placement[n]
                == s,
{
    assert forall|n: Seq<char>| #[trigger] placement.contains_key(n) implies exists|
        id: &AccountId,
    |
        id@ == n && #[trigger] call_ensures(
            shard_of,
            (id, &block_hash),
            Ok::<ShardId, E>(placement[n]),
        ) by {
        assert(names.contains(n));
        assert(may_place(shard_of, n, block_hash, Ok::<ShardId, E>(placement[n])));
    }
}

/// Bringing a tracker to the epoch of a block fails only with an error that the epoch manager may
/// answer, for the block or, where the tracker is not in the epoch of the block, for a pending
/// account; and then nothing changed.
pub proof fn law_update_fails<
    E,
    G: Fn(&CryptoHash) -> Result<EpochId, E>,
    F: Fn(&AccountId, &CryptoHash) -> Result<ShardId, E>,
>(
    before: TrackerState,
    after: TrackerState,
    epoch_of: G,
    shard_of: F,
    block_hash: CryptoHash,
    e: E,
)
    requires
        may_update(before, after, epoch_of, shard_of, block_hash, Err::<(), E>(e)),
    ensures
        after == before,
        ({
            ||| call_ensures(epoch_of, (&block_hash,), Err::<EpochId, E>(e))
            ||| {
                &&& exists|epoch_id: EpochId|
                    epoch_id != before.current_epoch_id && #[trigger] call_ensures(
                        epoch_of,
                        (&block_hash,),
                        Ok::<EpochId, E>(epoch_id),
                    )
                &&& exists|id: &AccountId|
                    before.pending_untracked_accounts.contains(id@) && #[trigger] call_ensures(
                        shard_of,
                        (id, &block_hash),
                        Err::<ShardId, E>(e),
                    )
            }
        }),
{
    let answer = choose|answer: Result<EpochId, E>| #[trigger]
        call_ensures(epoch_of, (&block_hash,), answer) && may_update_to(
            before,
            after,
            answer,
            shard_of,
            block_hash,
            Err::<(), E>(e),
        );
    if answer is Ok {
        assert(answer == Ok::<EpochId, E>(answer->Ok_0));
        law_fails_with(shard_of, before.pending_untracked_accounts, block_hash, e);
    }
}

/// A question for the shard of one of several accounts fails with an error that the epoch manager
/// may answer for an account of that name.
pub proof fn law_fails_with<E, F: Fn(&AccountId, &CryptoHash) -> Result<ShardId, E>>(
    shard_of: F,
    names: Set<Seq<char>>,
    block_hash: CryptoHash,
    e: E,
)
    requires
        may_fail(shard_of, names, block_hash, e),
    ensures
        exists|id: &AccountId|
            names.contains(id@) && #[trigger] call_ensures(
                shard_of,
                (id, &block_hash),
                Err::<ShardId, E>(e),
            ),
{
    let n = choose|n: Seq<char>|
        names.contains(n) && #[trigger] may_place(shard_of, n, block_hash, Err::<ShardId, E>(e));
    let id = choose|id: &AccountId|
        id@ == n && #[trigger] call_ensures(shard_of, (id, &block_hash), Err::<ShardId, E>(e));
    assert(names.contains(id@));
}

/// Carrying out what is pending at a block takes, if it succeeds, each pending account out of the
/// shard that was answered for it, which the returned mapping gives, ends the tracking of the
/// pending shards for their own sake, and does nothing else. If it fails, it is with an error that
/// the epoch manager may answer for a pending account, and nothing changed.
pub proof fn law_flush_pending<E, F: Fn(&AccountId, &CryptoHash) -> Result<ShardId, E>>(
    before: TrackerState,
    after: TrackerState,
    shard_of: F,
    block_hash: CryptoHash,
    result: Result<(), E>,
) -> (placement: Map<Seq<char>, ShardId>)
    requires
        may_flush(before, after, shard_of, block_hash, result),
    ensures
        match result {
            Err(e) => {
                &&& after == before
                &&& exists|id: &AccountId|
                    before.pending_untracked_accounts.contains(id@) && #[trigger] call_ensures(
                        shard_of,
                        (id, &block_hash),
                        Err::<ShardId, E>(e),
                    )
            },
            Ok(_) => {
                &&& forall|n: Seq<char>| #[trigger]
                    placement.contains_key(n) <==> before.pending_untracked_accounts.contains(n)
                &&& forall|n: Seq<char>| #[trigger]
                    placement.contains_key(n) ==> exists|id: &AccountId|
                        id@ == n && #[trigger] call_ensures(
                            shard_of,
                            (id, &block_hash),
                            Ok::<ShardId, E>(placement[n]),
                        )
                &&& forall|s: ShardId, n: Seq<char>| #[trigger]
                    is_tracked(after, n, s) <==> is_tracked(before, n, s) && !(
                    before.pending_untracked_accounts.contains(n) && placement[n] == s)
                &&& forall|s: ShardId| #[trigger]
                    after.tracked_shards.contains(s) <==> before.tracked_shards.contains(s)
                        && !before.pending_untracked_shards.contains(s)
                &&& forall|s: ShardId| #[trigger]
                    after.actual_tracked_shards.contains(s) <==> {
                        ||| before.tracked_shards.contains(s)
                            && !before.pending_untracked_shards.contains(s)
                        ||| exists|n: Seq<char>| #[trigger]
                            is_tracked(before, n, s) && !(
                            before.pending_untracked_accounts.contains(n) && placement[n] == s)
                    }
                &&& forall|n: Seq<char>| !(#[trigger] after.pending_untracked_accounts.contains(n))
                &&& forall|s: ShardId| !(#[trigger] after.pending_untracked_shards.contains(s))
                &&& after.current_epoch_id == before.current_epoch_id
            },
        },
{
    match result {
        Err(e) => {
            law_fails_with(shard_of, before.pending_untracked_accounts, block_hash, e);
            Map::empty()
        },
        Ok(_) => {
            let placement = choose|placement: Map<Seq<char>, ShardId>| #[trigger]
                may_place_all(shard_of, before.pending_untracked_accounts, block_hash, placement)
                    && after == before.flush(mapped_placements(placement));
            law_placed_by(shard_of, before.pending_untracked_accounts, block_hash, placement);
            law_flush(before, mapped_placements(placement));
            law_flushed_shards(before, before.pending_untracked_accounts, placement);
            placement
        },
    }
}

/// Once what is pending is carried out, a shard is tracked exactly if it was tracked for its own
/// sake and that was not to end, or an account is tracked in it that is not taken out of it.
pub proof fn law_flushed_shards(
    state: TrackerState,
    names: Set<Seq<char>>,
    placement: Map<Seq<char>, ShardId>,
)
    requires
        forall|n: Seq<char>| #[trigger] placement.contains_key(n) <==> names.contains(n),
    ensures
        forall|s: ShardId| #[trigger]
            state.flush(mapped_placements(placement)).actual_tracked_shards.contains(s) <==> {
                ||| state.tracked_shards.contains(s) && !state.pending_untracked_shards.contains(s)
                ||| exists|n: Seq<char>| #[trigger]
                    is_tracked(state, n, s) && !(names.contains(n) && placement[n] == s)
            },
{
    let placements = mapped_placements(placement);
    law_flush(state, placements);
    assert forall|s: ShardId| #[trigger]
        state.flush(placements).actual_tracked_shards.contains(s) <==> (
        state.tracked_shards.contains(s) && !state.pending_untracked_shards.contains(s) || exists|
            n: Seq<char>,
        | #[trigger]
            is_tracked(state, n, s) && !(names.contains(n) && placement[n] == s)) by {
        if exists|n: Seq<char>| is_tracked(state, n, s) && !placements.contains((n, s)) {
            let n = choose|n: Seq<char>| is_tracked(state, n, s) && !placements.contains((n, s));
            assert(is_tracked(state, n, s) && !(placement.contains_key(n) && placement[n] == s));
        }
        if exists|n: Seq<char>| #[trigger]
            is_tracked(state, n, s) && !(names.contains(n) && placement[n] == s) {
            let n = choose|n: Seq<char>| #[trigger]
                is_tracked(state, n, s) && !(names.contains(n) && placement[n] == s);
            assert(!(placement.contains_key(n) && placement[n] == s));
            assert(is_tracked(state, n, s) && !placements.contains((n, s)));
        }
    }
}

/// A block that the epoch manager puts into `epoch_id` brings the tracker there, and nowhere else.
pub proof fn law_update_moves_to_the_epoch<
    E,
    G: Fn(&CryptoHash) -> Result<EpochId, E>,
    F: Fn(&AccountId, &CryptoHash) -> Result<ShardId, E>,
>(
    before: TrackerState,
    after: TrackerState,
    epoch_of: G,
    shard_of: F,
    block_hash: CryptoHash,
    epoch_id: EpochId,
)
    requires
        may_update(before, after, epoch_of, shard_of, block_hash, Ok::<(), E>(())),
        forall|answer: Result<EpochId, E>| #[trigger]
            call_ensures(epoch_of, (&block_hash,), answer) ==> answer == Ok::<EpochId, E>(epoch_id),
    ensures
        after.current_epoch_id == epoch_id,
{
    law_update_succeeds(before, after, epoch_of, shard_of, block_hash);
}

/// What is untracked at a block of an epoch stays through that epoch: after an update at a block of
/// `epoch_id`, a request to untrack accounts and shards, and a later update at a block of the same
/// epoch, everything that was tracked still is, and what was asked for is still pending.
pub proof fn law_untracking_waits_through_the_epoch<
    E,
    G: Fn(&CryptoHash) -> Result<EpochId, E>,
    F: Fn(&AccountId, &CryptoHash) -> Result<ShardId, E>,
    H: Fn(&CryptoHash) -> Result<EpochId, E>,
    K: Fn(&AccountId, &CryptoHash) -> Result<ShardId, E>,
>(
    before: TrackerState,
    updated: TrackerState,
    epoch_of: G,
    shard_of: F,
    block_hash: CryptoHash,
    ids: Seq<AccountId>,
    shards: Seq<ShardId>,
    after: TrackerState,
    later_epoch_of: H,
    later_shard_of: K,
    later_block_hash: CryptoHash,
    epoch_id: EpochId,
)
    requires
        may_update(before, updated, epoch_of, shard_of, block_hash, Ok::<(), E>(())),
        forall|answer: Result<EpochId, E>| #[trigger]
            call_ensures(epoch_of, (&block_hash,), answer) ==> answer == Ok::<EpochId, E>(epoch_id),
        may_update(
            updated.mark_accounts(names_of(ids)).mark_shards(shards.to_set()),
            after,
            later_epoch_of,
            later_shard_of,
            later_block_hash,
            Ok::<(), E>(()),
        ),
        forall|answer: Result<EpochId, E>| #[trigger]
            call_ensures(later_epoch_of, (&later_block_hash,), answer) ==> answer == Ok::<
                EpochId,
                E,
            >(epoch_id),
    ensures
        after.tracked_accounts == updated.tracked_accounts,
        after.tracked_shards == updated.tracked_shards,
        after.actual_tracked_shards == updated.actual_tracked_shards,
        forall|i: int|
            0 <= i < ids.len() ==> after.pending_untracked_accounts.contains(
                (#[trigger] ids[i])@,
            ),
        forall|s: ShardId| #[trigger]
            shards.contains(s) ==> after.pending_untracked_shards.contains(s),
{
    let marked = updated.mark_accounts(names_of(ids));
    law_mark_accounts(updated, ids);
    law_mark_shards(marked, shards);
    law_update_succeeds(before, updated, epoch_of, shard_of, block_hash);
    law_update_succeeds(
        marked.mark_shards(shards.to_set()),
        after,
        later_epoch_of,
        later_shard_of,
        later_block_hash,
    );
}

/// Each of several requests to untrack in one epoch is carried out in the next: after two requests
/// and an update to another epoch, no account of either is tracked, where the epoch manager places
/// each account in the one shard that it is tracked in, and no shard of either is tracked for its
/// own sake.
pub proof fn law_requests_add_up<
    E,
    G: Fn(&CryptoHash) -> Result<EpochId, E>,
    F: Fn(&AccountId, &CryptoHash) -> Result<ShardId, E>,
>(
    state: TrackerState,
    ids: Seq<AccountId>,
    more_ids: Seq<AccountId>,
    shards: Seq<ShardId>,
    more_shards: Seq<ShardId>,
    after: TrackerState,
    epoch_of: G,
    shard_of: F,
    block_hash: CryptoHash,
)
    requires
        may_update(
            state.mark_accounts(names_of(ids)).mark_shards(shards.to_set()).mark_accounts(
                names_of(more_ids),
            ).mark_shards(more_shards.to_set()),
            after,
            epoch_of,
            shard_of,
            block_hash,
            Ok::<(), E>(()),
        ),
        forall|answer: Result<EpochId, E>| #[trigger]
            call_ensures(epoch_of, (&block_hash,), answer) ==> answer != Ok::<EpochId, E>(
                state.current_epoch_id,
            ),
        forall|id: &AccountId, s: ShardId, answer: ShardId|
            is_tracked(state, id@, s) && #[trigger] call_ensures(
                shard_of,
                (id, &block_hash),
                Ok::<ShardId, E>(answer),
            ) && #[trigger] state.tracked_accounts.contains_key(s) ==> answer == s,
    ensures
        forall|i: int, s: ShardId|
            0 <= i < ids.len() ==> !(#[trigger] is_tracked(after, ids[i]@, s)),
        forall|i: int, s: ShardId|
            0 <= i < more_ids.len() ==> !(#[trigger] is_tracked(after, more_ids[i]@, s)),
        forall|s: ShardId| #[trigger] shards.contains(s) ==> !after.tracked_shards.contains(s),
        forall|s: ShardId| #[trigger] more_shards.contains(s) ==> !after.tracked_shards.contains(s),
        forall|s: ShardId| #[trigger]
            after.actual_tracked_shards.contains(s) && (shards.contains(s) || more_shards.contains(
                s,
            )) ==> exists|n: Seq<char>| #[trigger] is_tracked(after, n, s),
{
    let one = state.mark_accounts(names_of(ids));
    let two = one.mark_shards(shards.to_set());
    let three = two.mark_accounts(names_of(more_ids));
    let four = three.mark_shards(more_shards.to_set());
    law_mark_accounts(state, ids);
    law_mark_shards(one, shards);
    law_mark_accounts(two, more_ids);
    law_mark_shards(three, more_shards);
    let placement = law_update_succeeds(four, after, epoch_of, shard_of, block_hash);
    assert forall|n: Seq<char>, s: ShardId|
        four.pending_untracked_accounts.contains(n) implies !(#[trigger] is_tracked(
        after,
        n,
        s,
    )) by {
        if is_tracked(four, n, s) {
            assert(is_tracked(state, n, s));
            assert(state.tracked_accounts.contains_key(s));
            assert(placement.contains_key(n));
            let id = choose|id: &AccountId|
                id@ == n && #[trigger] call_ensures(
                    shard_of,
                    (id, &block_hash),
                    Ok::<ShardId, E>(placement[n]),
                );
            assert(placement[n] == s);
        }
    }
    assert forall|i: int, s: ShardId| 0 <= i < ids.len() implies !(#[trigger] is_tracked(
        after,
        ids[i]@,
        s,
    )) by {
        assert(one.pending_untracked_accounts.contains(ids[i]@));
        assert(four.pending_untracked_accounts.contains(ids[i]@));
    }
    assert forall|i: int, s: ShardId| 0 <= i < more_ids.len() implies !(#[trigger] is_tracked(
        after,
        more_ids[i]@,
        s,
    )) by {
        assert(three.pending_untracked_accounts.contains(more_ids[i]@));
    }
    assert forall|s: ShardId| shards.contains(s) || more_shards.contains(s) implies !(
    #[trigger] after.tracked_shards.contains(s)) by {
        assert(four.pending_untracked_shards.contains(s));
    }
}

/// A node without account cares about exactly what is tracked; another node about exactly what its
/// account cares about; the tracker's own node about both. An account cares only if the epoch
/// manager says so: an error counts as not caring.
pub proof fn law_care<E>(
    state: TrackerState,
    answer: Result<bool, E>,
    s: ShardId,
    is_me: bool,
)
    ensures
        state.cares(None, s, is_me) <==> state.actual_tracked_shards.contains(s),
        state.cares(Some(says_yes(answer)), s, false) <==> answer == Ok::<bool, E>(true),
        state.cares(Some(says_yes(answer)), s, true) <==> answer == Ok::<bool, E>(true)
            || state.actual_tracked_shards.contains(s),
        state.cares(Some(false), s, true) <==> state.actual_tracked_shards.contains(s),
        says_yes(answer) <==> answer == Ok::<bool, E>(true),
{
}

/// Where the tracker says if a node will care about a shard, the answer is yes exactly if the shard
/// is tracked for its own sake and that is not to end, or an account is tracked in it that is not
/// to be taken out of it. Each pending account is taken out of the shard that was answered for it,
/// which the returned mapping gives.
pub proof fn law_will_care<E, F: Fn(&AccountId, &CryptoHash) -> Result<ShardId, E>>(
    state: TrackerState,
    account_cares: Option<bool>,
    shard_of: F,
    block_hash: CryptoHash,
    s: ShardId,
    is_me: bool,
    will_care: bool,
) -> (placement: Map<Seq<char>, ShardId>)
    requires
        may_care(state, account_cares, shard_of, block_hash, s, is_me, will_care),
        account_cares is None || account_cares == Some(false) && is_me,
    ensures
        forall|n: Seq<char>| #[trigger]
            placement.contains_key(n) <==> state.pending_untracked_accounts.contains(n),
        forall|n: Seq<char>| #[trigger]
            placement.contains_key(n) ==> exists|id: &AccountId|
                id@ == n && #[trigger] call_ensures(
                    shard_of,
                    (id, &block_hash),
                    Ok::<ShardId, E>(placement[n]),
                ),
        will_care <==> {
            ||| state.tracked_shards.contains(s) && !state.pending_untracked_shards.contains(s)
            ||| exists|n: Seq<char>| #[trigger]
                is_tracked(state, n, s) && !(state.pending_untracked_accounts.contains(n)
                    && placement[n] == s)
        },
{
    let placement = choose|placement: Map<Seq<char>, ShardId>| #[trigger]
        may_place_all(shard_of, state.pending_untracked_accounts, block_hash, placement)
            && will_care == state.flush(mapped_placements(placement)).cares(
            account_cares,
            s,
            is_me,
        );
    law_placed_by(shard_of, state.pending_untracked_accounts, block_hash, placement);
    law_flushed_shards(state, state.pending_untracked_accounts, placement);
    let flushed = state.flush(mapped_placements(placement));
    assert(will_care == flushed.actual_tracked_shards.contains(s));
    placement
}

/// Where the tracker says if a node will care about a shard, it says what an update at that block
/// to another epoch makes true, as long as the epoch manager places each account the same way.
pub proof fn law_will_care_foretells_the_update<
    E,
    G: Fn(&CryptoHash) -> Result<EpochId, E>,
    F: Fn(&AccountId, &CryptoHash) -> Result<ShardId, E>,
>(
    state: TrackerState,
    account_cares: Option<bool>,
    s: ShardId,
    is_me: bool,
    will_care: bool,
    after: TrackerState,
    epoch_of: G,
    shard_of: F,
    block_hash: CryptoHash,
)
    requires
        may_care(state, account_cares, shard_of, block_hash, s, is_me, will_care),
        account_cares is None || account_cares == Some(false) && is_me,
        may_update(state, after, epoch_of, shard_of, block_hash, Ok::<(), E>(())),
        after.current_epoch_id != state.current_epoch_id,
        forall|a: &AccountId, b: &AccountId, x: ShardId, y: ShardId|
            a@ == b@ && #[trigger] call_ensures(shard_of, (a, &block_hash), Ok::<ShardId, E>(x))
                && #[trigger] call_ensures(shard_of, (b, &block_hash), Ok::<ShardId, E>(y)) ==> x
                == y,
    ensures
        will_care <==> after.actual_tracked_shards.contains(s),
{
    let foretold = law_will_care(
        state,
        account_cares,
        shard_of,
        block_hash,
        s,
        is_me,
        will_care,
    );
    let placement = law_update_succeeds(state, after, epoch_of, shard_of, block_hash);
    assert forall|n: Seq<char>| #[trigger]
        state.pending_untracked_accounts.contains(n) implies foretold[n] == placement[n] by {
        assert(foretold.contains_key(n) && placement.contains_key(n));
        let a = choose|a: &AccountId|
            a@ == n && #[trigger] call_ensures(
                shard_of,
                (a, &block_hash),
                Ok::<ShardId, E>(foretold[n]),
            );
        let b = choose|b: &AccountId|
            b@ == n && #[trigger] call_ensures(
                shard_of,
                (b, &block_hash),
                Ok::<ShardId, E>(placement[n]),
            );
        assert(a@ == b@);
    }
    assert(forall|n: Seq<char>| #[trigger]
        is_tracked(after, n, s) <==> is_tracked(state, n, s) && !(
        state.pending_untracked_accounts.contains(n) && foretold[n] == s));
    assert(after.tracked_shards.contains(s) <==> state.tracked_shards.contains(s)
        && !state.pending_untracked_shards.contains(s));
    if exists|n: Seq<char>| #[trigger]
        is_tracked(state, n, s) && !(state.pending_untracked_accounts.contains(n) && foretold[n]
            == s) {
        let n = choose|n: Seq<char>| #[trigger]
            is_tracked(state, n, s) && !(state.pending_untracked_accounts.contains(n) && foretold[n]
                == s);
        assert(is_tracked(after, n, s));
    }
}

/// What is asked of the epoch manager: it can be asked for shards at a block when it can be asked
/// for the shard of every account there; it fails for none of several names when it answers no
/// error for an account of such a name; and the tracker may have to say if a node will care when
/// the node has no account, or is the tracker's own and the epoch manager may answer anything but
/// yes for its account.
pub proof fn law_questions<
    E,
    F: Fn(&AccountId, &CryptoHash) -> Result<ShardId, E>,
    C: Fn(&CryptoHash, &AccountId, ShardId) -> Result<bool, E>,
>(
    shard_of: F,
    cares: C,
    block_hash: CryptoHash,
    names: Set<Seq<char>>,
    account_id: &AccountId,
    s: ShardId,
    is_me: bool,
)
    ensures
        can_place(shard_of, block_hash) <==> forall|id: &AccountId| #[trigger]
            call_requires(shard_of, (id, &block_hash)),
        places_all(shard_of, names, block_hash) <==> forall|
            id: &AccountId,
            answer: Result<ShardId, E>,
        |
            names.contains(id@) && #[trigger] call_ensures(shard_of, (id, &block_hash), answer)
                ==> answer is Ok,
        may_ask_tracker(None, block_hash, s, is_me, cares),
        may_ask_tracker(Some(account_id), block_hash, s, is_me, cares) <==> is_me && exists|
            answer: Result<bool, E>,
        | #[trigger]
            call_ensures(cares, (&block_hash, account_id, s), answer) && answer != Ok::<bool, E>(
                true,
            ),
{
    if places_all(shard_of, names, block_hash) {
        assert forall|id: &AccountId, answer: Result<ShardId, E>|
            names.contains(id@) && #[trigger] call_ensures(
                shard_of,
                (id, &block_hash),
                answer,
            ) implies answer is Ok by {
            assert(may_place(shard_of, id@, block_hash, answer));
        }
    }
}

} // verus!
