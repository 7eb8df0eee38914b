//! Accounts by the shard that they are in.

use std::collections::{HashMap, HashSet};

use vstd::prelude::*;

use crate::account_set::AccountSet;
use crate::placement::{
    accounts_in, lemma_with_no_empty_entry, lemma_without_no_empty_entry, lemma_without_one,
    no_empty_entry, with_placements, without_placements, AccountsByShard,
};
use crate::shard_set::lemma_take_next;
use crate::types::{AccountId, ShardId};

verus! {

/// Sets of accounts by shard. A shard with no account has no entry.
#[derive(Debug)]
pub struct AccountIndex {
    entries: HashMap<ShardId, AccountSet>,
}

impl View for AccountIndex {
    type V = AccountsByShard;

    closed spec fn view(&self) -> AccountsByShard {
        self.entries@.map_values(|accounts: AccountSet| accounts@)
    }
}

impl AccountIndex {
    /// Every set is well-formed.
    pub closed spec fn sets_wf(&self) -> bool {
        forall|s: ShardId| #[trigger] self.entries@.contains_key(s) ==> self.entries@[s].wf()
    }

    /// Every set is well-formed, and none is empty.
    pub open spec fn wf(&self) -> bool {
        &&& self.sets_wf()
        &&& no_empty_entry(self@)
    }

    /// The index without any account.
    pub fn new() -> (index: Self)
        ensures
            index.wf(),
            index@ == Map::<ShardId, Set<Seq<char>>>::empty(),
    {
        let index = AccountIndex { entries: HashMap::new() };
        assert(index@ =~= Map::<ShardId, Set<Seq<char>>>::empty());
        index
    }

    /// Whether an account of `shard_id` is in the index.
    pub fn contains_shard(&self, shard_id: ShardId) -> (found: bool)
        ensures
            found == self@.contains_key(shard_id),
    {
        self.entries.contains_key(&shard_id)
    }

    /// Puts `id` into the set of `shard_id`.
    pub fn insert(&mut self, id: AccountId, shard_id: ShardId)
        requires
            old(self).wf(),
        ensures
            final(self).wf(),
            final(self)@ == with_placements(old(self)@, set![(id@, shard_id)]),
    {
        let ghost before = self@;
        let ghost name = id@;
        let ghost put = set![(name, shard_id)];
        let accounts = self.entries.entry(shard_id).or_insert(AccountSet::new());
        accounts.insert(id);
        proof {
            assert(put.contains((name, shard_id)));
            lemma_with_no_empty_entry(before, put);
            assert(self@ =~~= with_placements(before, put));
        }
    }

    /// Takes `id` out of the set of `shard_id`, and the entry of that shard if this empties it.
    /// Returns whether it did.
    pub fn remove(&mut self, id: &AccountId, shard_id: ShardId) -> (emptied: bool)
        requires
            old(self).wf(),
        ensures
            final(self).wf(),
            final(self)@ == without_placements(old(self)@, set![(id@, shard_id)]),
            emptied == (old(self)@.contains_key(shard_id) && !final(self)@.contains_key(shard_id)),
    {
        let ghost before = self@;
        let ghost gone = set![(id@, shard_id)];
        let ghost after = without_placements(before, gone);
        proof {
            lemma_without_no_empty_entry(before, gone);
            lemma_without_one(before, id@, shard_id);
            assert forall|s: ShardId|
                s != shard_id && after.contains_key(s) implies #[trigger] after[s]
                == before[s] by {
                assert(after[s] =~= before[s]);
            }
        }
        let emptied = match self.entries.remove(&shard_id) {
            None => false,
            Some(mut accounts) => {
                accounts.remove(id);
                if accounts.is_empty() {
                    true
                } else {
                    proof {
                        let name = choose|name: Seq<char>| accounts@.contains(name);
                        assert(accounts_in(before, shard_id).contains(name) && !gone.contains(
                            (name, shard_id),
                        ));
                    }
                    self.entries.insert(shard_id, accounts);
                    false
                }
            },
        };
        proof {
            assert(self@.dom() =~= after.dom()) by {
                if after.contains_key(shard_id) {
                    let name = choose|name: Seq<char>|
                        accounts_in(before, shard_id).contains(name) && !gone.contains(
                            (name, shard_id),
                        );
                    assert(before[shard_id].remove(id@).contains(name));
                }
            }
            if after.contains_key(shard_id) {
                assert(after[shard_id] =~= before[shard_id].remove(id@));
            }
            assert(self@ =~= after);
        }
        emptied
    }

    /// Puts every shard that has an account in the index into `shards`.
    pub fn add_shards_to(&self, shards: &mut HashSet<ShardId>)
        ensures
            final(shards)@ == old(shards)@.union(self@.dom()),
    {
        let ghost before = shards@;
        for shard_id in it: self.entries.keys()
            invariant
                it.seq().unref().to_set() == self.entries@.dom(),
                shards@ == before.union(it.seq().unref().take(it.index()).to_set()),
                it.seq().unref().take(it.seq().len() as int) == it.seq().unref(),
        {
            let ghost listed = it.seq().unref();
            let ghost n = it.index();
            shards.insert(*shard_id);
            proof {
                lemma_take_next(listed, n);
                assert(shards@ =~= before.union(listed.take(n + 1).to_set()));
            }
        }
        assert(self@.dom() =~= self.entries@.dom());
    }
}

impl Clone for AccountIndex {
    fn clone(&self) -> (copied: Self)
        ensures
            copied@ == self@,
            self.wf() ==> copied.wf(),
    {
        let mut entries: HashMap<ShardId, AccountSet> = HashMap::new();
        for shard_id in it: self.entries.keys()
            invariant
                it.seq().unref().to_set() == self.entries@.dom(),
                entries@.dom() == it.seq().unref().take(it.index()).to_set(),
                forall|s: ShardId| #[trigger] entries@.contains_key(s) ==> {
                    &&& self.entries@.contains_key(s)
                    &&& entries@[s].names() == self.entries@[s].names()
                },
                it.seq().unref().take(it.seq().len() as int) == it.seq().unref(),
        {
            let ghost listed = it.seq().unref();
            let ghost n = it.index();
            assert(listed.to_set().contains(listed[n]));
            if let Some(accounts) = self.entries.get(shard_id) {
                entries.insert(*shard_id, accounts.clone());
            }
            proof {
                lemma_take_next(listed, n);
                assert(entries@.dom() =~= listed.take(n + 1).to_set());
            }
        }
        let copied = AccountIndex { entries };
        assert(copied@ =~~= self@);
        copied
    }
}

} // verus!
