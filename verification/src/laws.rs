//! What holds of the tracker as a whole.

use vstd::prelude::*;

use crate::lookup::{may_place, may_place_all, may_update, may_update_to, places_all};
use crate::placement::{
    accounts_in, lemma_with_no_empty_entry, lemma_without_no_empty_entry, lemma_without_none,
    mapped_placements, placed_shards, with_placements, without_placements, Placements,
};
use crate::state::{lemma_track_more_accounts, TrackerState};
use crate::types::{AccountId, CryptoHash, EpochId, ShardId};

verus! {

/// `placements` has each pending account in every shard that it is tracked in.
pub open spec fn finds_pending(state: TrackerState, placements: Placements) -> bool {
    forall|name: Seq<char>, shard_id: ShardId| #[trigger]
        accounts_in(state.tracked_accounts, shard_id).contains(name)
            && state.pending_untracked_accounts.contains(name) ==> placements.contains(
            (name, shard_id),
        )
}

/// `placements` is about pending accounts only.
pub open spec fn only_pending(state: TrackerState, placements: Placements) -> bool {
    forall|name: Seq<char>, shard_id: ShardId| #[trigger]
        placements.contains((name, shard_id)) ==> state.pending_untracked_accounts.contains(name)
}

/// At `block_hash`, `shard_of` places an account that is tracked in no shard but the one that it is
/// tracked in.
pub open spec fn steadily_placed<E, F: Fn(&AccountId, &CryptoHash) -> Result<ShardId, E>>(
    state: TrackerState,
    shard_of: F,
    block_hash: CryptoHash,
) -> bool {
    forall|name: Seq<char>, shard_id: ShardId, answer: Result<ShardId, E>| #[trigger]
        accounts_in(state.tracked_accounts, shard_id).contains(name) && #[trigger] may_place(
            shard_of,
            name,
            block_hash,
            answer,
        ) && answer is Ok ==> answer == Ok::<ShardId, E>(shard_id)
}

/// The shards that are tracked are always those that a tracked account is in and those that are
/// tracked for their own sake, and no shard is kept with an empty set of accounts: a new tracker is
/// so, and every operation keeps it so.
pub proof fn law_operations_keep_wf(
    state: TrackerState,
    placements: Placements,
    names: Set<Seq<char>>,
    shards: Set<ShardId>,
    epoch_id: EpochId,
)
    requires
        state.wf(),
    ensures
        TrackerState::initial(shards, epoch_id).wf(),
        state.track_accounts(placements).wf(),
        state.track_shards(shards).wf(),
        state.mark_accounts(names).wf(),
        state.mark_shards(shards).wf(),
        state.flush(placements).wf(),
        state.enter_epoch(epoch_id, placements).wf(),
{
    lemma_with_no_empty_entry(state.tracked_accounts, placements);
    lemma_without_no_empty_entry(state.tracked_accounts, placements);
    let initial = TrackerState::initial(shards, epoch_id);
    assert(initial.actual_tracked_shards =~= initial.tracked_accounts.dom().union(
        initial.tracked_shards,
    ));
    let more_accounts = state.track_accounts(placements);
    assert(more_accounts.actual_tracked_shards =~= more_accounts.tracked_accounts.dom().union(
        more_accounts.tracked_shards,
    ));
    let more_shards = state.track_shards(shards);
    assert(more_shards.actual_tracked_shards =~= more_shards.tracked_accounts.dom().union(
        more_shards.tracked_shards,
    ));
}

/// Tracking starts at once: an account that is put into a shard is tracked there, and that shard is
/// tracked; so is every shard that is tracked for its own sake.
pub proof fn law_tracking_is_immediate(
    state: TrackerState,
    placements: Placements,
    shards: Set<ShardId>,
)
    ensures
        forall|name: Seq<char>, shard_id: ShardId| #[trigger]
            placements.contains((name, shard_id)) ==> {
                let after = state.track_accounts(placements);
                &&& accounts_in(after.tracked_accounts, shard_id).contains(name)
                &&& after.actual_tracked_shards.contains(shard_id)
            },
        shards.subset_of(state.track_shards(shards).actual_tracked_shards),
{
}

/// Tracking loses nothing: what was tracked still is. Nor does it call off what is pending.
pub proof fn law_tracking_loses_nothing(
    state: TrackerState,
    placements: Placements,
    shards: Set<ShardId>,
)
    ensures
        ({
            let after = state.track_accounts(placements).track_shards(shards);
            &&& forall|shard_id: ShardId|
                accounts_in(state.tracked_accounts, shard_id).subset_of(
                    #[trigger] accounts_in(after.tracked_accounts, shard_id),
                )
            &&& state.tracked_shards.subset_of(after.tracked_shards)
            &&& state.actual_tracked_shards.subset_of(after.actual_tracked_shards)
            &&& after.pending_untracked_accounts == state.pending_untracked_accounts
            &&& after.pending_untracked_shards == state.pending_untracked_shards
            &&& after.current_epoch_id == state.current_epoch_id
        }),
{
}

/// The order in which accounts and shards are tracked makes no difference, nor does tracking them
/// twice.
pub proof fn law_tracking_order_is_irrelevant(
    state: TrackerState,
    first: Placements,
    second: Placements,
    shards: Set<ShardId>,
    more_shards: Set<ShardId>,
)
    ensures
        state.track_accounts(first).track_accounts(second) == state.track_accounts(
            second,
        ).track_accounts(first),
        state.track_accounts(first).track_accounts(first) == state.track_accounts(first),
        state.track_shards(shards).track_shards(more_shards) == state.track_shards(
            more_shards,
        ).track_shards(shards),
        state.track_shards(shards).track_shards(shards) == state.track_shards(shards),
        state.track_accounts(first).track_shards(shards) == state.track_shards(
            shards,
        ).track_accounts(first),
{
    lemma_track_more_accounts(state, first, second);
    lemma_track_more_accounts(state, second, first);
    lemma_track_more_accounts(state, first, first);
    assert(first.union(second) =~= second.union(first));
    assert(first.union(first) =~= first);
    assert(state.track_shards(shards).track_shards(more_shards) =~= state.track_shards(
        more_shards,
    ).track_shards(shards));
    assert(state.track_shards(shards).track_shards(shards) =~= state.track_shards(shards));
    assert(state.track_accounts(first).track_shards(shards) =~= state.track_shards(
        shards,
    ).track_accounts(first));
}

/// Untracking waits for the next epoch: until then everything that was tracked still is, and the
/// node cares about what it cared about.
pub proof fn law_untracking_waits(state: TrackerState, names: Set<Seq<char>>, shards: Set<ShardId>)
    ensures
        ({
            let after = state.mark_accounts(names).mark_shards(shards);
            &&& after.tracked_accounts == state.tracked_accounts
            &&& after.tracked_shards == state.tracked_shards
            &&& after.actual_tracked_shards == state.actual_tracked_shards
            &&& forall|account_cares: Option<bool>, shard_id: ShardId, is_me: bool| #[trigger]
                after.cares(account_cares, shard_id, is_me) == state.cares(
                    account_cares,
                    shard_id,
                    is_me,
                )
        }),
{
}

/// The next epoch stops tracking: once another epoch is entered, no account that was to be
/// untracked is tracked in any shard, no shard that was to be untracked is tracked for its own sake, and
/// nothing is pending.
pub proof fn law_next_epoch_untracks(
    state: TrackerState,
    names: Set<Seq<char>>,
    shards: Set<ShardId>,
    epoch_id: EpochId,
    placements: Placements,
)
    requires
        epoch_id != state.current_epoch_id,
        finds_pending(state.mark_accounts(names).mark_shards(shards), placements),
    ensures
        ({
            let after = state.mark_accounts(names).mark_shards(shards).enter_epoch(
                epoch_id,
                placements,
            );
            &&& forall|name: Seq<char>, shard_id: ShardId|
                names.contains(name) ==> !(#[trigger] accounts_in(
                    after.tracked_accounts,
                    shard_id,
                ).contains(name))
            &&& after.tracked_shards.disjoint(shards)
            &&& after.pending_untracked_accounts == Set::<Seq<char>>::empty()
            &&& after.pending_untracked_shards == Set::<ShardId>::empty()
            &&& after.current_epoch_id == epoch_id
        }),
{
    let marked = state.mark_accounts(names).mark_shards(shards);
    let after = marked.enter_epoch(epoch_id, placements);
    assert forall|name: Seq<char>, shard_id: ShardId|
        names.contains(name) implies !(#[trigger] accounts_in(
        after.tracked_accounts,
        shard_id,
    ).contains(name)) by {
        if accounts_in(after.tracked_accounts, shard_id).contains(name) {
            assert(accounts_in(marked.tracked_accounts, shard_id).contains(name));
        }
    }
}

/// The next epoch stops tracking nothing else: an account that is not pending is tracked where it
/// was, and a shard that is not pending is tracked for its own sake if it was.
pub proof fn law_next_epoch_keeps_the_rest(
    state: TrackerState,
    epoch_id: EpochId,
    placements: Placements,
)
    requires
        only_pending(state, placements),
    ensures
        ({
            let after = state.enter_epoch(epoch_id, placements);
            &&& forall|name: Seq<char>, shard_id: ShardId|
                !state.pending_untracked_accounts.contains(name) ==> (#[trigger] accounts_in(
                    after.tracked_accounts,
                    shard_id,
                ).contains(name) <==> accounts_in(state.tracked_accounts, shard_id).contains(name))
            &&& forall|shard_id: ShardId|
                !state.pending_untracked_shards.contains(shard_id) ==> (
                #[trigger] after.tracked_shards.contains(shard_id)
                    <==> state.tracked_shards.contains(shard_id))
        }),
{
    let after = state.enter_epoch(epoch_id, placements);
    assert forall|name: Seq<char>, shard_id: ShardId|
        !state.pending_untracked_accounts.contains(name) implies (#[trigger] accounts_in(
        after.tracked_accounts,
        shard_id,
    ).contains(name) <==> accounts_in(state.tracked_accounts, shard_id).contains(name)) by {
        assert(!placements.contains((name, shard_id)));
    }
}

/// In the next epoch a shard is tracked exactly if it was tracked for its own sake and that was not
/// to end, or an account is tracked in it that was not to be untracked.
pub proof fn law_shards_of_next_epoch(
    state: TrackerState,
    epoch_id: EpochId,
    placements: Placements,
    shard_id: ShardId,
)
    requires
        epoch_id != state.current_epoch_id,
        finds_pending(state, placements),
        only_pending(state, placements),
    ensures
        state.enter_epoch(epoch_id, placements).actual_tracked_shards.contains(shard_id) <==> {
            ||| state.tracked_shards.contains(shard_id)
                && !state.pending_untracked_shards.contains(shard_id)
            ||| exists|name: Seq<char>| #[trigger]
                accounts_in(state.tracked_accounts, shard_id).contains(name)
                    && !state.pending_untracked_accounts.contains(name)
        },
{
    let kept = without_placements(state.tracked_accounts, placements);
    if kept.contains_key(shard_id) {
        let name = choose|name: Seq<char>|
            accounts_in(state.tracked_accounts, shard_id).contains(name) && !placements.contains(
                (name, shard_id),
            );
        assert(!state.pending_untracked_accounts.contains(name));
    }
    if exists|name: Seq<char>| #[trigger]
        accounts_in(state.tracked_accounts, shard_id).contains(name)
            && !state.pending_untracked_accounts.contains(name) {
        let name = choose|name: Seq<char>| #[trigger]
            accounts_in(state.tracked_accounts, shard_id).contains(name)
                && !state.pending_untracked_accounts.contains(name);
        assert(!placements.contains((name, shard_id)));
    }
}

/// A new epoch starts tracking nothing.
pub proof fn law_epochs_track_nothing_new(
    state: TrackerState,
    epoch_id: EpochId,
    placements: Placements,
)
    requires
        state.wf(),
    ensures
        state.enter_epoch(epoch_id, placements).actual_tracked_shards.subset_of(
            state.actual_tracked_shards,
        ),
{
}

/// Staying in the epoch changes nothing, so entering an epoch twice is entering it once.
pub proof fn law_same_epoch_changes_nothing(
    state: TrackerState,
    epoch_id: EpochId,
    placements: Placements,
    later: Placements,
)
    ensures
        state.enter_epoch(state.current_epoch_id, placements) == state,
        state.enter_epoch(epoch_id, placements).enter_epoch(epoch_id, later) == state.enter_epoch(
            epoch_id,
            placements,
        ),
{
}

/// What a node will care about is what it cares about once another epoch is entered.
pub proof fn law_will_care_is_care_in_next_epoch(
    state: TrackerState,
    epoch_id: EpochId,
    placements: Placements,
    account_cares: Option<bool>,
    shard_id: ShardId,
    is_me: bool,
)
    requires
        epoch_id != state.current_epoch_id,
    ensures
        state.flush(placements).cares(account_cares, shard_id, is_me) == state.enter_epoch(
            epoch_id,
            placements,
        ).cares(account_cares, shard_id, is_me),
{
}

/// With nothing pending, a node will care about what it cares about.
pub proof fn law_nothing_pending_changes_nothing(state: TrackerState)
    requires
        state.wf(),
        state.pending_untracked_accounts == Set::<Seq<char>>::empty(),
        state.pending_untracked_shards == Set::<ShardId>::empty(),
    ensures
        state.flush(Set::empty()) == state,
        forall|account_cares: Option<bool>, shard_id: ShardId, is_me: bool| #[trigger]
            state.flush(Set::empty()).cares(account_cares, shard_id, is_me) == state.cares(
                account_cares,
                shard_id,
                is_me,
            ),
{
    lemma_without_none(state.tracked_accounts);
    assert(state.flush(Set::empty()) =~= state);
}

/// Tracking accounts is undone by untracking them and entering another epoch.
pub proof fn law_untracking_accounts_undoes_tracking(
    state: TrackerState,
    placements: Placements,
    names: Set<Seq<char>>,
    epoch_id: EpochId,
)
    requires
        state.wf(),
        state.pending_untracked_accounts == Set::<Seq<char>>::empty(),
        state.pending_untracked_shards == Set::<ShardId>::empty(),
        forall|name: Seq<char>, shard_id: ShardId| #[trigger]
            placements.contains((name, shard_id)) ==> !accounts_in(
                state.tracked_accounts,
                shard_id,
            ).contains(name),
        epoch_id != state.current_epoch_id,
    ensures
        state.track_accounts(placements).mark_accounts(names).enter_epoch(epoch_id, placements)
            == (TrackerState { current_epoch_id: epoch_id, ..state }),
{
    let more = with_placements(state.tracked_accounts, placements);
    let back = without_placements(more, placements);
    assert forall|name: Seq<char>, shard_id: ShardId| #[trigger]
        accounts_in(more, shard_id).contains(name) <==> accounts_in(
            state.tracked_accounts,
            shard_id,
        ).contains(name) || placements.contains((name, shard_id)) by {
        if placements.contains((name, shard_id)) {
            assert(placed_shards(placements).contains(shard_id));
        }
    }
    assert forall|shard_id: ShardId| #[trigger]
        back.contains_key(shard_id) <==> state.tracked_accounts.contains_key(shard_id) by {
        if state.tracked_accounts.contains_key(shard_id) {
            let name = choose|name: Seq<char>|
                state.tracked_accounts[shard_id].contains(name);
            assert(accounts_in(state.tracked_accounts, shard_id).contains(name));
            assert(accounts_in(more, shard_id).contains(name) && !placements.contains(
                (name, shard_id),
            ));
        }
    }
    assert forall|shard_id: ShardId| #[trigger] back.contains_key(shard_id) implies back[shard_id]
        == state.tracked_accounts[shard_id] by {
        assert forall|name: Seq<char>| #[trigger] back[shard_id].contains(name)
            <==> state.tracked_accounts[shard_id].contains(name) by {
            assert(accounts_in(more, shard_id).contains(name) <==> accounts_in(
                state.tracked_accounts,
                shard_id,
            ).contains(name) || placements.contains((name, shard_id)));
        }
        assert(back[shard_id] =~= state.tracked_accounts[shard_id]);
    }
    assert(back =~= state.tracked_accounts);
    assert(state.tracked_shards.difference(Set::<ShardId>::empty()) =~= state.tracked_shards);
    assert(state.track_accounts(placements).mark_accounts(names).enter_epoch(epoch_id, placements)
        =~= (TrackerState { current_epoch_id: epoch_id, ..state }));
}

/// Tracking shards is undone by untracking them and entering another epoch.
pub proof fn law_untracking_shards_undoes_tracking(
    state: TrackerState,
    shards: Set<ShardId>,
    epoch_id: EpochId,
)
    requires
        state.wf(),
        state.pending_untracked_accounts == Set::<Seq<char>>::empty(),
        state.pending_untracked_shards == Set::<ShardId>::empty(),
        state.tracked_shards.disjoint(shards),
        epoch_id != state.current_epoch_id,
    ensures
        state.track_shards(shards).mark_shards(shards).enter_epoch(epoch_id, Set::empty()) == (
        TrackerState { current_epoch_id: epoch_id, ..state }),
{
    lemma_without_none(state.tracked_accounts);
    assert(state.track_shards(shards).mark_shards(shards).enter_epoch(epoch_id, Set::empty()) =~= (
    TrackerState { current_epoch_id: epoch_id, ..state }));
}

/// Accounts that are untracked are gone once an update has brought the tracker to another epoch,
/// where each account is always placed in the one shard that it is tracked in.
pub proof fn law_update_untracks_accounts<
    E,
    F: Fn(&AccountId, &CryptoHash) -> Result<ShardId, E>,
>(
    before: TrackerState,
    names: Set<Seq<char>>,
    after: TrackerState,
    epoch_id: EpochId,
    shard_of: F,
    block_hash: CryptoHash,
)
    requires
        epoch_id != before.current_epoch_id,
        may_update_to(
            before.mark_accounts(names),
            after,
            Ok::<EpochId, E>(epoch_id),
            shard_of,
            block_hash,
            Ok::<(), E>(()),
        ),
        steadily_placed(before, shard_of, block_hash),
    ensures
        forall|name: Seq<char>, shard_id: ShardId|
            names.contains(name) ==> !(#[trigger] accounts_in(
                after.tracked_accounts,
                shard_id,
            ).contains(name)),
{
    let marked = before.mark_accounts(names);
    let placement = choose|placement: Map<Seq<char>, ShardId>| #[trigger]
        may_place_all(shard_of, marked.pending_untracked_accounts, block_hash, placement) && after
            == marked.enter_epoch(epoch_id, mapped_placements(placement));
    law_steady_placement_finds_pending(marked, shard_of, block_hash, placement);
    assert(marked.mark_shards(Set::empty()) =~= marked);
    law_next_epoch_untracks(before, names, Set::empty(), epoch_id, mapped_placements(placement));
}

/// Shards that are untracked are no longer tracked for their own sake once an update has brought
/// the tracker to another epoch; one that is still tracked has a tracked account.
pub proof fn law_update_untracks_shards<
    E,
    F: Fn(&AccountId, &CryptoHash) -> Result<ShardId, E>,
>(
    before: TrackerState,
    shards: Set<ShardId>,
    after: TrackerState,
    epoch_id: EpochId,
    shard_of: F,
    block_hash: CryptoHash,
)
    requires
        epoch_id != before.current_epoch_id,
        may_update_to(
            before.mark_shards(shards),
            after,
            Ok::<EpochId, E>(epoch_id),
            shard_of,
            block_hash,
            Ok::<(), E>(()),
        ),
    ensures
        after.tracked_shards.disjoint(shards),
        forall|shard_id: ShardId|
            shards.contains(shard_id) && #[trigger] after.actual_tracked_shards.contains(shard_id)
                ==> exists|name: Seq<char>|
                accounts_in(after.tracked_accounts, shard_id).contains(name),
{
    let marked = before.mark_shards(shards);
    let placement = choose|placement: Map<Seq<char>, ShardId>| #[trigger]
        may_place_all(shard_of, marked.pending_untracked_accounts, block_hash, placement) && after
            == marked.enter_epoch(epoch_id, mapped_placements(placement));
    lemma_without_no_empty_entry(marked.tracked_accounts, mapped_placements(placement));
    assert forall|shard_id: ShardId|
        shards.contains(shard_id) && #[trigger] after.actual_tracked_shards.contains(
            shard_id,
        ) implies exists|name: Seq<char>|
        accounts_in(after.tracked_accounts, shard_id).contains(name) by {
        assert(after.tracked_accounts.contains_key(shard_id));
        let name = choose|name: Seq<char>| after.tracked_accounts[shard_id].contains(name);
        assert(accounts_in(after.tracked_accounts, shard_id).contains(name));
    }
}

/// Of another node only its account says what it cares about; the tracker's own node cares about
/// whatever its account cares about and whatever is tracked; a node that has no account cares about
/// whatever is tracked.
pub proof fn law_who_cares(state: TrackerState, account_cares: bool, shard_id: ShardId)
    ensures
        state.cares(Some(account_cares), shard_id, false) == account_cares,
        state.cares(Some(account_cares), shard_id, true) == (account_cares
            || state.actual_tracked_shards.contains(shard_id)),
        forall|is_me: bool| #[trigger]
            state.cares(None, shard_id, is_me) == state.actual_tracked_shards.contains(shard_id),
{
}

/// A failed update changes nothing, so what was pending still is.
pub proof fn law_failed_update_changes_nothing<
    E,
    G: Fn(&CryptoHash) -> Result<EpochId, E>,
    F: Fn(&AccountId, &CryptoHash) -> Result<ShardId, E>,
>(
    before: TrackerState,
    after: TrackerState,
    epoch_of: G,
    shard_of: F,
    block_hash: CryptoHash,
    e: E,
)
    requires
        may_update(before, after, epoch_of, shard_of, block_hash, Err(e)),
    ensures
        after == before,
{
}

/// An update succeeds if no question to the epoch manager fails.
pub proof fn law_update_succeeds_if_answered<
    E,
    G: Fn(&CryptoHash) -> Result<EpochId, E>,
    F: Fn(&AccountId, &CryptoHash) -> Result<ShardId, E>,
>(
    before: TrackerState,
    after: TrackerState,
    epoch_of: G,
    shard_of: F,
    block_hash: CryptoHash,
    result: Result<(), E>,
)
    requires
        may_update(before, after, epoch_of, shard_of, block_hash, result),
        forall|answer: Result<EpochId, E>| #[trigger]
            call_ensures(epoch_of, (&block_hash,), answer) ==> answer is Ok,
        places_all(shard_of, before.pending_untracked_accounts, block_hash),
    ensures
        result is Ok,
{
}

/// Where each account is always placed in the one shard that it is tracked in, the placements that
/// an update works with find every pending account, and are about pending accounts only.
pub proof fn law_steady_placement_finds_pending<
    E,
    F: Fn(&AccountId, &CryptoHash) -> Result<ShardId, E>,
>(
    state: TrackerState,
    shard_of: F,
    block_hash: CryptoHash,
    placement: Map<Seq<char>, ShardId>,
)
    requires
        may_place_all(shard_of, state.pending_untracked_accounts, block_hash, placement),
        steadily_placed(state, shard_of, block_hash),
    ensures
        finds_pending(state, mapped_placements(placement)),
        only_pending(state, mapped_placements(placement)),
{
}

} // verus!
