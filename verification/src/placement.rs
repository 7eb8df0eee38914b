//! Which account is in which shard, as a relation.

use vstd::prelude::*;

use crate::types::{AccountId, ShardId};

verus! {

/// Account names by shard. A shard with no account has no entry.
pub type AccountsByShard = Map<ShardId, Set<Seq<char>>>;

/// Pairs of an account name and the shard that the account is in.
pub type Placements = Set<(Seq<char>, ShardId)>;

/// The names of `ids`.
pub open spec fn names_of(ids: Seq<AccountId>) -> Set<Seq<char>> {
    ids.map_values(|id: AccountId| id@).to_set()
}

/// The pairs that `list` holds.
pub open spec fn listed_placements(list: Seq<(AccountId, ShardId)>) -> Placements {
    Set::new(
        |p: (Seq<char>, ShardId)|
            exists|i: int|
                0 <= i < list.len() && (#[trigger] list[i]).0@ == p.0 && list[i].1 == p.1,
    )
}

/// The pairs of `ids[i]` and the shard that the `i`-th answer gives, for the answers that give one.
pub open spec fn answered_placements<E>(
    ids: Seq<AccountId>,
    answers: Seq<Result<ShardId, E>>,
) -> Placements {
    Set::new(
        |p: (Seq<char>, ShardId)|
            exists|i: int|
                0 <= i < ids.len() && (#[trigger] ids[i])@ == p.0 && answers[i] == Ok::<ShardId, E>(
                    p.1,
                ),
    )
}

/// The pairs that `placement` maps from name to shard.
pub open spec fn mapped_placements(placement: Map<Seq<char>, ShardId>) -> Placements {
    Set::new(|p: (Seq<char>, ShardId)| placement.contains_key(p.0) && placement[p.0] == p.1)
}

/// The accounts that `placements` puts into `shard_id`.
pub open spec fn placed_in(placements: Placements, shard_id: ShardId) -> Set<Seq<char>> {
    Set::new(|name: Seq<char>| placements.contains((name, shard_id)))
}

/// The shards that `placements` puts an account into.
pub open spec fn placed_shards(placements: Placements) -> Set<ShardId> {
    Set::new(|shard_id: ShardId| exists|name: Seq<char>| placements.contains((name, shard_id)))
}

/// The accounts of `shard_id`.
pub open spec fn accounts_in(accounts: AccountsByShard, shard_id: ShardId) -> Set<Seq<char>> {
    if accounts.contains_key(shard_id) {
        accounts[shard_id]
    } else {
        Set::empty()
    }
}

/// Every entry has an account.
pub open spec fn no_empty_entry(accounts: AccountsByShard) -> bool {
    forall|shard_id: ShardId| #[trigger]
        accounts.contains_key(shard_id) ==> exists|name: Seq<char>|
            accounts[shard_id].contains(name)
}

/// `accounts` with every pair of `placements` put in.
pub open spec fn with_placements(
    accounts: AccountsByShard,
    placements: Placements,
) -> AccountsByShard {
    Map::new(
        |shard_id: ShardId|
            accounts.contains_key(shard_id) || placed_shards(placements).contains(shard_id),
        |shard_id: ShardId| accounts_in(accounts, shard_id).union(placed_in(placements, shard_id)),
    )
}

/// `accounts` with every pair of `placements` taken out, and the entries that this empties.
pub open spec fn without_placements(
    accounts: AccountsByShard,
    placements: Placements,
) -> AccountsByShard {
    Map::new(
        |shard_id: ShardId|
            exists|name: Seq<char>|
                accounts_in(accounts, shard_id).contains(name) && !placements.contains(
                    (name, shard_id),
                ),
        |shard_id: ShardId|
            accounts_in(accounts, shard_id).difference(placed_in(placements, shard_id)),
    )
}

/// Nothing to put in changes nothing.
pub(crate) proof fn lemma_with_none(accounts: AccountsByShard)
    ensures
        with_placements(accounts, Set::empty()) == accounts,
{
    assert(with_placements(accounts, Set::empty()) =~~= accounts);
}

/// Nothing to take out changes nothing.
pub(crate) proof fn lemma_without_none(accounts: AccountsByShard)
    requires
        no_empty_entry(accounts),
    ensures
        without_placements(accounts, Set::empty()) == accounts,
{
    let after = without_placements(accounts, Set::empty());
    assert forall|s: ShardId| #[trigger] after.contains_key(s) <==> accounts.contains_key(s) by {
        if accounts.contains_key(s) {
            let name = choose|name: Seq<char>| accounts[s].contains(name);
            assert(accounts_in(accounts, s).contains(name) && !Set::empty().contains((name, s)));
        }
    }
    assert(after =~~= accounts);
}

/// The shards of two relations together are the shards of both.
pub(crate) proof fn lemma_placed_shards_union(first: Placements, more: Placements)
    ensures
        placed_shards(first.union(more)) == placed_shards(first).union(placed_shards(more)),
{
    let both = first.union(more);
    assert forall|s: ShardId| #[trigger] placed_shards(both).contains(s) <==> placed_shards(
        first,
    ).contains(s) || placed_shards(more).contains(s) by {
        if placed_shards(both).contains(s) {
            let name = choose|name: Seq<char>| both.contains((name, s));
            assert(first.contains((name, s)) || more.contains((name, s)));
        }
        if placed_shards(first).contains(s) {
            let name = choose|name: Seq<char>| first.contains((name, s));
            assert(both.contains((name, s)));
        }
        if placed_shards(more).contains(s) {
            let name = choose|name: Seq<char>| more.contains((name, s));
            assert(both.contains((name, s)));
        }
    }
    assert(placed_shards(both) =~= placed_shards(first).union(placed_shards(more)));
}

/// Putting in more pairs is putting them in after the first ones.
pub(crate) proof fn lemma_with_more(accounts: AccountsByShard, first: Placements, more: Placements)
    ensures
        with_placements(with_placements(accounts, first), more) == with_placements(
            accounts,
            first.union(more),
        ),
{
    let once = with_placements(accounts, first.union(more));
    let twice = with_placements(with_placements(accounts, first), more);
    lemma_placed_shards_union(first, more);
    assert(once =~~= twice);
}

/// Taking out more pairs is taking them out after the first ones.
pub(crate) proof fn lemma_without_more(
    accounts: AccountsByShard,
    first: Placements,
    more: Placements,
)
    ensures
        without_placements(without_placements(accounts, first), more) == without_placements(
            accounts,
            first.union(more),
        ),
{
    let once = without_placements(accounts, first.union(more));
    let between = without_placements(accounts, first);
    let twice = without_placements(between, more);
    assert forall|s: ShardId, name: Seq<char>| #[trigger]
        accounts_in(between, s).contains(name) <==> accounts_in(accounts, s).contains(name)
            && !first.contains((name, s)) by {}
    assert forall|s: ShardId| #[trigger] once.contains_key(s) <==> twice.contains_key(s) by {
        if once.contains_key(s) {
            let name = choose|name: Seq<char>|
                accounts_in(accounts, s).contains(name) && !first.union(more).contains((name, s));
            assert(accounts_in(between, s).contains(name) && !more.contains((name, s)));
        }
        if twice.contains_key(s) {
            let name = choose|name: Seq<char>|
                accounts_in(between, s).contains(name) && !more.contains((name, s));
            assert(accounts_in(accounts, s).contains(name) && !first.union(more).contains(
                (name, s),
            ));
        }
    }
    assert forall|s: ShardId| once.contains_key(s) implies #[trigger] once[s] == twice[s] by {
        assert(twice.contains_key(s));
        assert(once[s] =~= twice[s]);
    }
    assert(once =~= twice);
}

/// Taking pairs out gives no shard an entry that had none.
pub(crate) proof fn lemma_without_shrinks(accounts: AccountsByShard, placements: Placements)
    ensures
        without_placements(accounts, placements).dom().subset_of(accounts.dom()),
{
}

/// Taking one pair out leaves the entries of the other shards.
pub(crate) proof fn lemma_without_one(accounts: AccountsByShard, name: Seq<char>, shard_id: ShardId)
    requires
        no_empty_entry(accounts),
    ensures
        forall|s: ShardId|
            s != shard_id ==> (#[trigger] without_placements(
                accounts,
                set![(name, shard_id)],
            ).contains_key(s) <==> accounts.contains_key(s)),
{
    let gone = set![(name, shard_id)];
    assert forall|s: ShardId|
        s != shard_id && accounts.contains_key(s) implies #[trigger] without_placements(
        accounts,
        gone,
    ).contains_key(s) by {
        let other = choose|other: Seq<char>| accounts[s].contains(other);
        assert(accounts_in(accounts, s).contains(other) && !gone.contains((other, s)));
    }
}

/// No entry is empty after pairs are put in.
pub(crate) proof fn lemma_with_no_empty_entry(accounts: AccountsByShard, placements: Placements)
    requires
        no_empty_entry(accounts),
    ensures
        no_empty_entry(with_placements(accounts, placements)),
{
    let after = with_placements(accounts, placements);
    assert forall|s: ShardId| #[trigger] after.contains_key(s) implies exists|name: Seq<char>|
        after[s].contains(name) by {
        if accounts.contains_key(s) {
            let name = choose|name: Seq<char>| accounts[s].contains(name);
            assert(after[s].contains(name));
        } else {
            let name = choose|name: Seq<char>| placements.contains((name, s));
            assert(after[s].contains(name));
        }
    }
}

/// No entry is empty after pairs are taken out.
pub(crate) proof fn lemma_without_no_empty_entry(accounts: AccountsByShard, placements: Placements)
    ensures
        no_empty_entry(without_placements(accounts, placements)),
{
    let after = without_placements(accounts, placements);
    assert forall|s: ShardId| #[trigger] after.contains_key(s) implies exists|name: Seq<char>|
        after[s].contains(name) by {
        let name = choose|name: Seq<char>|
            accounts_in(accounts, s).contains(name) && !placements.contains((name, s));
        assert(after[s].contains(name));
    }
}

/// A list that holds the pair of each name and its shard holds what the mapping holds.
pub(crate) proof fn lemma_listed_is_mapped(
    list: Seq<(AccountId, ShardId)>,
    names: Seq<Seq<char>>,
    placement: Map<Seq<char>, ShardId>,
)
    requires
        list.len() == names.len(),
        placement.dom() == names.to_set(),
        forall|i: int|
            0 <= i < list.len() ==> (#[trigger] list[i]).0@ == names[i] && list[i].1
                == placement[names[i]],
    ensures
        listed_placements(list) == mapped_placements(placement),
{
    assert forall|p: (Seq<char>, ShardId)| #[trigger]
        listed_placements(list).contains(p) <==> mapped_placements(placement).contains(p) by {
        if listed_placements(list).contains(p) {
            let i = choose|i: int|
                0 <= i < list.len() && (#[trigger] list[i]).0@ == p.0 && list[i].1 == p.1;
            assert(names.to_set().contains(names[i]));
        }
        if mapped_placements(placement).contains(p) {
            assert(names.to_set().contains(p.0));
            let i = choose|i: int| 0 <= i < names.len() && names[i] == p.0;
            assert(list[i].0@ == p.0);
        }
    }
    assert(listed_placements(list) =~= mapped_placements(placement));
}

/// A list that holds the pair of each account and the shard answered for it holds what the answers
/// hold.
pub(crate) proof fn lemma_listed_is_answered<E>(
    list: Seq<(AccountId, ShardId)>,
    ids: Seq<AccountId>,
    answers: Seq<Result<ShardId, E>>,
)
    requires
        list.len() == ids.len(),
        answers.len() == ids.len(),
        forall|i: int|
            0 <= i < list.len() ==> (#[trigger] list[i]).0@ == ids[i]@ && answers[i] == Ok::<
                ShardId,
                E,
            >(list[i].1),
    ensures
        listed_placements(list) == answered_placements(ids, answers),
{
    assert forall|p: (Seq<char>, ShardId)| #[trigger]
        listed_placements(list).contains(p) <==> answered_placements(ids, answers).contains(p) by {
        if listed_placements(list).contains(p) {
            let i = choose|i: int|
                0 <= i < list.len() && (#[trigger] list[i]).0@ == p.0 && list[i].1 == p.1;
            assert(ids[i]@ == p.0);
        }
        if answered_placements(ids, answers).contains(p) {
            let i = choose|i: int|
                0 <= i < ids.len() && (#[trigger] ids[i])@ == p.0 && answers[i] == Ok::<ShardId, E>(
                    p.1,
                );
            assert(list[i].0@ == p.0);
        }
    }
    assert(listed_placements(list) =~= answered_placements(ids, answers));
}

/// A list with one pair more at its end holds that pair more.
pub(crate) proof fn lemma_listed_push(list: Seq<(AccountId, ShardId)>, n: int)
    requires
        0 <= n < list.len(),
    ensures
        listed_placements(list.take(n + 1)) == listed_placements(list.take(n)).insert(
            (list[n].0@, list[n].1),
        ),
{
    let longer = list.take(n + 1);
    let shorter = list.take(n);
    assert forall|p: (Seq<char>, ShardId)| #[trigger]
        listed_placements(longer).contains(p) <==> listed_placements(shorter).insert(
            (list[n].0@, list[n].1),
        ).contains(p) by {
        if listed_placements(longer).contains(p) {
            let i = choose|i: int|
                0 <= i < longer.len() && (#[trigger] longer[i]).0@ == p.0 && longer[i].1 == p.1;
            if i < n {
                assert(shorter[i] == longer[i]);
            }
        }
        if listed_placements(shorter).contains(p) {
            let i = choose|i: int|
                0 <= i < shorter.len() && (#[trigger] shorter[i]).0@ == p.0 && shorter[i].1 == p.1;
            assert(longer[i] == shorter[i]);
        }
        assert(longer[n] == list[n]);
    }
    assert(listed_placements(longer) =~= listed_placements(shorter).insert(
        (list[n].0@, list[n].1),
    ));
}

/// One answer more adds the pair that it gives, if it gives one.
pub(crate) proof fn lemma_answered_push<E>(
    ids: Seq<AccountId>,
    answers: Seq<Result<ShardId, E>>,
    n: int,
    answer: Result<ShardId, E>,
)
    requires
        0 <= n < ids.len(),
        answers.len() == n,
    ensures
        answered_placements(ids.take(n + 1), answers.push(answer)) == match answer {
            Ok(shard_id) => answered_placements(ids.take(n), answers).insert((ids[n]@, shard_id)),
            Err(_) => answered_placements(ids.take(n), answers),
        },
{
    let longer = ids.take(n + 1);
    let shorter = ids.take(n);
    let more = answers.push(answer);
    let before = answered_placements(shorter, answers);
    let after = answered_placements(longer, more);
    assert forall|p: (Seq<char>, ShardId)| #[trigger] after.contains(p) implies before.contains(p)
        || (p.0 == ids[n]@ && answer == Ok::<ShardId, E>(p.1)) by {
        let i = choose|i: int|
            0 <= i < longer.len() && (#[trigger] longer[i])@ == p.0 && more[i] == Ok::<ShardId, E>(
                p.1,
            );
        if i < n {
            assert(shorter[i] == longer[i]);
        }
    }
    assert forall|p: (Seq<char>, ShardId)| #[trigger] before.contains(p) implies after.contains(
        p,
    ) by {
        let i = choose|i: int|
            0 <= i < shorter.len() && (#[trigger] shorter[i])@ == p.0 && answers[i] == Ok::<
                ShardId,
                E,
            >(p.1);
        assert(longer[i] == shorter[i]);
    }
    assert(longer[n] == ids[n]);
    match answer {
        Ok(shard_id) => {
            assert(after =~= before.insert((ids[n]@, shard_id)));
        },
        Err(_) => {
            assert(after =~= before);
        },
    }
}

} // verus!
