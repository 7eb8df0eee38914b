//! A set of account names.

use vstd::prelude::*;

use crate::types::AccountId;

verus! {

/// A set of accounts, kept in the order in which they were first inserted.
#[derive(Debug)]
pub struct AccountSet {
    ids: Vec<AccountId>,
}

impl View for AccountSet {
    type V = Set<Seq<char>>;

    /// The names that are in the set.
    open spec fn view(&self) -> Set<Seq<char>> {
        self.names().to_set()
    }
}

impl Clone for AccountSet {
    fn clone(&self) -> (copied: Self)
        ensures
            copied.names() == self.names(),
    {
        let copied = AccountSet { ids: self.ids.clone() };
        assert(copied.names() =~= self.names());
        copied
    }
}

impl AccountSet {
    /// The names in the order in which they were first inserted.
    pub closed spec fn names(&self) -> Seq<Seq<char>> {
        self.ids@.map_values(|id: AccountId| id@)
    }

    /// No name is held twice.
    pub open spec fn wf(&self) -> bool {
        self.names().no_duplicates()
    }

    /// The empty set.
    pub fn new() -> (set: Self)
        ensures
            set.wf(),
            set@ == Set::<Seq<char>>::empty(),
    {
        let set = AccountSet { ids: Vec::new() };
        assert(set@ =~= Set::<Seq<char>>::empty());
        set
    }

    /// How many accounts are in the set.
    pub fn len(&self) -> (len: usize)
        ensures
            len == self.names().len(),
    {
        self.ids.len()
    }

    /// The account at `index`, in the order in which they were first inserted.
    pub fn get(&self, index: usize) -> (id: &AccountId)
        requires
            index < self.names().len(),
        ensures
            id@ == self.names()[index as int],
    {
        &self.ids[index]
    }

    /// Whether no account is in the set.
    pub fn is_empty(&self) -> (empty: bool)
        ensures
            empty <==> self@ =~= Set::<Seq<char>>::empty(),
    {
        proof {
            if self.names().len() > 0 {
                assert(self@.contains(self.names()[0]));
            }
        }
        self.ids.len() == 0
    }

    /// Where `id` stands in the order of insertion, if it is in the set.
    fn position(&self, id: &AccountId) -> (position: Option<usize>)
        ensures
            match position {
                Some(i) => i < self.names().len() && self.names()[i as int] == id@,
                None => !self@.contains(id@),
            },
    {
        let mut i: usize = 0;
        while i < self.ids.len()
            invariant
                i <= self.ids.len(),
                forall|j: int| 0 <= j < i ==> self.names()[j] != id@,
            decreases self.ids.len() - i,
        {
            if self.ids[i] == *id {
                return Some(i);
            }
            i += 1;
        }
        None
    }

    /// Whether `id` is in the set.
    pub fn contains(&self, id: &AccountId) -> (found: bool)
        ensures
            found == self@.contains(id@),
    {
        self.position(id).is_some()
    }

    /// Puts `id` into the set.
    pub fn insert(&mut self, id: AccountId)
        requires
            old(self).wf(),
        ensures
            final(self).wf(),
            final(self)@ == old(self)@.insert(id@),
    {
        let ghost before = self.names();
        if !self.contains(&id) {
            let ghost name = id@;
            self.ids.push(id);
            proof {
                assert(self.names() =~= before.push(name));
                assert(self.names()[before.len() as int] == name);
                assert forall|other: Seq<char>| before.contains(
                    other,
                ) implies self.names().contains(other) by {
                    let i = choose|i: int| 0 <= i < before.len() && before[i] == other;
                    assert(self.names()[i] == other);
                }
            }
        }
        assert(self@ =~= before.to_set().insert(id@));
    }

    /// Takes `id` out of the set.
    pub fn remove(&mut self, id: &AccountId)
        requires
            old(self).wf(),
        ensures
            final(self).wf(),
            final(self)@ == old(self)@.remove(id@),
    {
        let ghost before = self.names();
        if let Some(i) = self.position(id) {
            self.ids.remove(i);
            proof {
                assert(self.names() =~= before.remove(i as int));
                assert forall|other: Seq<char>|
                    before.contains(other) && other != id@ implies self.names().contains(other) by {
                    let j = choose|j: int| 0 <= j < before.len() && before[j] == other;
                    if j < i {
                        assert(self.names()[j] == other);
                    } else {
                        assert(self.names()[j - 1] == other);
                    }
                }
            }
        }
        assert(self@ =~= before.to_set().remove(id@));
    }

    /// Takes every account out of the set.
    pub fn clear(&mut self)
        ensures
            final(self).wf(),
            final(self)@ == Set::<Seq<char>>::empty(),
    {
        self.ids.clear();
        assert(self@ =~= Set::<Seq<char>>::empty());
    }
}

} // verus!
