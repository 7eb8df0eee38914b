//! What the epoch manager may answer.
//!
//! The tracker asks the epoch manager through functions that it is handed. Nothing is assumed of
//! their answers: the contracts of the tracker hold for whatever they return.

use vstd::prelude::*;

use crate::placement::mapped_placements;
use crate::state::TrackerState;
use crate::types::{AccountId, CryptoHash, EpochId, ShardId};

verus! {

/// Whether `shard_of` can be asked for the shard of any account at `block_hash`.
pub open spec fn can_place<E, F: Fn(&AccountId, &CryptoHash) -> Result<ShardId, E>>(
    shard_of: F,
    block_hash: CryptoHash,
) -> bool {
    forall|id: &AccountId| #[trigger] call_requires(shard_of, (id, &block_hash))
}

/// Whether `shard_of` may answer `answers[i]` for `ids[i]` at `block_hash`.
pub open spec fn may_answer<E, F: Fn(&AccountId, &CryptoHash) -> Result<ShardId, E>>(
    shard_of: F,
    ids: Seq<AccountId>,
    block_hash: CryptoHash,
    answers: Seq<Result<ShardId, E>>,
) -> bool {
    &&& answers.len() == ids.len()
    &&& forall|i: int|
        0 <= i < ids.len() ==> call_ensures(shard_of, (&ids[i], &block_hash), #[trigger] answers[i])
}

/// Whether `shard_of` may answer `answer` for the account called `name` at `block_hash`.
pub open spec fn may_place<E, F: Fn(&AccountId, &CryptoHash) -> Result<ShardId, E>>(
    shard_of: F,
    name: Seq<char>,
    block_hash: CryptoHash,
    answer: Result<ShardId, E>,
) -> bool {
    exists|id: &AccountId|
        id@ == name && #[trigger] call_ensures(shard_of, (id, &block_hash), answer)
}

/// Whether `placement` maps each of `names`, and nothing else, to a shard that `shard_of` may
/// answer for it at `block_hash`.
pub open spec fn may_place_all<E, F: Fn(&AccountId, &CryptoHash) -> Result<ShardId, E>>(
    shard_of: F,
    names: Set<Seq<char>>,
    block_hash: CryptoHash,
    placement: Map<Seq<char>, ShardId>,
) -> bool {
    &&& placement.dom() == names
    &&& forall|name: Seq<char>| #[trigger]
        names.contains(name) ==> may_place(shard_of, name, block_hash, Ok(placement[name]))
}

/// Whether `shard_of` may answer the error `e` for one of `names` at `block_hash`.
pub open spec fn may_fail<E, F: Fn(&AccountId, &CryptoHash) -> Result<ShardId, E>>(
    shard_of: F,
    names: Set<Seq<char>>,
    block_hash: CryptoHash,
    e: E,
) -> bool {
    exists|name: Seq<char>|
        names.contains(name) && #[trigger] may_place(shard_of, name, block_hash, Err(e))
}

/// Whether `shard_of` fails for none of `names` at `block_hash`.
pub open spec fn places_all<E, F: Fn(&AccountId, &CryptoHash) -> Result<ShardId, E>>(
    shard_of: F,
    names: Set<Seq<char>>,
    block_hash: CryptoHash,
) -> bool {
    forall|name: Seq<char>, answer: Result<ShardId, E>| #[trigger]
        may_place(shard_of, name, block_hash, answer) && names.contains(name) ==> answer is Ok
}

/// How carrying out what is pending may end: with each pending account asked for, or, without a
/// change, with an error that `shard_of` answers for one of them.
pub open spec fn may_flush<E, F: Fn(&AccountId, &CryptoHash) -> Result<ShardId, E>>(
    before: TrackerState,
    after: TrackerState,
    shard_of: F,
    block_hash: CryptoHash,
    result: Result<(), E>,
) -> bool {
    match result {
        Ok(_) => exists|placement: Map<Seq<char>, ShardId>| #[trigger]
            may_place_all(shard_of, before.pending_untracked_accounts, block_hash, placement)
                && after == before.flush(mapped_placements(placement)),
        Err(e) => after == before && may_fail(
            shard_of,
            before.pending_untracked_accounts,
            block_hash,
            e,
        ),
    }
}

/// How bringing the tracker to the epoch of a block may end, when `answer` is what the epoch
/// manager says that epoch is.
pub open spec fn may_update_to<E, F: Fn(&AccountId, &CryptoHash) -> Result<ShardId, E>>(
    before: TrackerState,
    after: TrackerState,
    answer: Result<EpochId, E>,
    shard_of: F,
    block_hash: CryptoHash,
    result: Result<(), E>,
) -> bool {
    match (answer, result) {
        (Err(e), _) => result == Err::<(), E>(e) && after == before,
        (Ok(epoch_id), Ok(_)) => if epoch_id == before.current_epoch_id {
            after == before
        } else {
            exists|placement: Map<Seq<char>, ShardId>| #[trigger]
                may_place_all(shard_of, before.pending_untracked_accounts, block_hash, placement)
                    && after == before.enter_epoch(epoch_id, mapped_placements(placement))
        },
        (Ok(epoch_id), Err(e)) => {
            &&& epoch_id != before.current_epoch_id
            &&& after == before
            &&& may_fail(shard_of, before.pending_untracked_accounts, block_hash, e)
        },
    }
}

/// How bringing the tracker to the epoch of the block `block_hash` may end.
pub open spec fn may_update<
    E,
    G: Fn(&CryptoHash) -> Result<EpochId, E>,
    F: Fn(&AccountId, &CryptoHash) -> Result<ShardId, E>,
>(
    before: TrackerState,
    after: TrackerState,
    epoch_of: G,
    shard_of: F,
    block_hash: CryptoHash,
    result: Result<(), E>,
) -> bool {
    exists|answer: Result<EpochId, E>| #[trigger]
        call_ensures(epoch_of, (&block_hash,), answer) && may_update_to(
            before,
            after,
            answer,
            shard_of,
            block_hash,
            result,
        )
}

/// Whether an account is taken to care: an error counts as not caring.
pub open spec fn says_yes<E>(answer: Result<bool, E>) -> bool {
    answer == Ok::<bool, E>(true)
}

/// Whether `cares` may be the answer to whether a node cares about `shard_id` once what is pending
/// is carried out, at the block `block_hash`.
pub open spec fn may_care<E, F: Fn(&AccountId, &CryptoHash) -> Result<ShardId, E>>(
    state: TrackerState,
    account_cares: Option<bool>,
    shard_of: F,
    block_hash: CryptoHash,
    shard_id: ShardId,
    is_me: bool,
    cares: bool,
) -> bool {
    exists|placement: Map<Seq<char>, ShardId>| #[trigger]
        may_place_all(shard_of, state.pending_untracked_accounts, block_hash, placement) && cares
            == state.flush(mapped_placements(placement)).cares(account_cares, shard_id, is_me)
}

/// Whether it may be left to the tracker to say if a node will care about `shard_id`: it has no
/// account, or it is the tracker's own node and its account may not care.
pub open spec fn may_ask_tracker<E, C: Fn(&CryptoHash, &AccountId, ShardId) -> Result<bool, E>>(
    account_id: Option<&AccountId>,
    parent_hash: CryptoHash,
    shard_id: ShardId,
    is_me: bool,
    cares: C,
) -> bool {
    match account_id {
        None => true,
        Some(id) => is_me && exists|answer: Result<bool, E>| #[trigger]
            call_ensures(cares, (&parent_hash, id, shard_id), answer) && !says_yes(answer),
    }
}

} // verus!
