//! Operations on whole sets of shards.

use std::collections::HashSet;

use vstd::prelude::*;

use crate::types::ShardId;

verus! {

/// Puts every shard of `more` into `shards`.
pub fn insert_all(shards: &mut HashSet<ShardId>, more: &HashSet<ShardId>)
    ensures
        final(shards)@ == old(shards)@.union(more@),
{
    let ghost before = shards@;
    for shard_id in it: more.iter()
        invariant
            it.seq().unref().to_set() == more@,
            shards@ == before.union(it.seq().unref().take(it.index()).to_set()),
            it.seq().unref().take(it.seq().len() as int) == it.seq().unref(),
    {
        let ghost listed = it.seq().unref();
        let ghost n = it.index();
        shards.insert(*shard_id);
        proof {
            lemma_take_next(listed, n);
            assert(shards@ =~= before.union(listed.take(n + 1).to_set()));
        }
    }
}

/// Takes every shard of `gone` out of `shards`.
pub fn remove_all(shards: &mut HashSet<ShardId>, gone: &HashSet<ShardId>)
    ensures
        final(shards)@ == old(shards)@.difference(gone@),
{
    let ghost before = shards@;
    for shard_id in it: gone.iter()
        invariant
            it.seq().unref().to_set() == gone@,
            shards@ == before.difference(it.seq().unref().take(it.index()).to_set()),
            it.seq().unref().take(it.seq().len() as int) == it.seq().unref(),
    {
        let ghost listed = it.seq().unref();
        let ghost n = it.index();
        shards.remove(shard_id);
        proof {
            lemma_take_next(listed, n);
            assert(shards@ =~= before.difference(listed.take(n + 1).to_set()));
        }
    }
}

/// A second set that holds the same shards.
pub fn copy(shards: &HashSet<ShardId>) -> (copied: HashSet<ShardId>)
    ensures
        copied@ == shards@,
{
    let mut copied: HashSet<ShardId> = HashSet::new();
    insert_all(&mut copied, shards);
    assert(copied@ =~= shards@);
    copied
}

/// Puts every shard of the list `more` into `shards`.
pub fn insert_listed(shards: &mut HashSet<ShardId>, more: &[ShardId])
    ensures
        final(shards)@ == old(shards)@.union(more@.to_set()),
{
    let ghost before = shards@;
    let mut i: usize = 0;
    while i < more.len()
        invariant
            i <= more@.len(),
            shards@ == before.union(more@.take(i as int).to_set()),
        decreases more@.len() - i,
    {
        shards.insert(more[i]);
        proof {
            lemma_take_next(more@, i as int);
            assert(shards@ =~= before.union(more@.take(i + 1).to_set()));
        }
        i += 1;
    }
    assert(more@.take(i as int) =~= more@);
}

/// The prefix of length `n + 1` holds what the prefix of length `n` holds, and one item more.
pub(crate) proof fn lemma_take_next<T>(listed: Seq<T>, n: int)
    requires
        0 <= n < listed.len(),
    ensures
        listed.take(n + 1).to_set() == listed.take(n).to_set().insert(listed[n]),
{
    let longer = listed.take(n + 1);
    let shorter = listed.take(n);
    assert(longer[n] == listed[n]);
    assert forall|item: T| shorter.contains(item) implies longer.contains(item) by {
        let i = choose|i: int| 0 <= i < shorter.len() && shorter[i] == item;
        assert(longer[i] == item);
    }
    assert forall|item: T| longer.contains(item) implies shorter.contains(item) || item
        == listed[n] by {
        let i = choose|i: int| 0 <= i < longer.len() && longer[i] == item;
        if i < n {
            assert(shorter[i] == item);
        }
    }
    assert(longer.to_set() =~= shorter.to_set().insert(listed[n]));
}

} // verus!
