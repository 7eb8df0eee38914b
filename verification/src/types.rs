//! The plain values that the tracker is about.

use vstd::prelude::*;
use vstd::std_specs::cmp::PartialEqSpecImpl;

verus! {

/// Number of a shard.
pub type ShardId = u64;

/// Name of an account.
pub type AccountId = String;

/// Hash of a block.
#[derive(Clone, Copy, Debug, Default, Eq, Hash)]
pub struct CryptoHash(pub [u8; 32]);

/// Identifier of an epoch.
#[derive(Clone, Copy, Debug, Default, Eq, Hash)]
pub struct EpochId(pub CryptoHash);

impl PartialEq for CryptoHash {
    fn eq(&self, other: &Self) -> (equal: bool) {
        let mut i: usize = 0;
        while i < 32
            invariant
                i <= 32,
                forall|j: int| 0 <= j < i ==> self.0@[j] == other.0@[j],
            decreases 32 - i,
        {
            if self.0[i] != other.0[i] {
                return false;
            }
            i += 1;
        }
        assert(self.0 =~= other.0);
        true
    }
}

/// Two hashes are equal when their bytes are.
impl PartialEqSpecImpl for CryptoHash {
    open spec fn obeys_eq_spec() -> bool {
        true
    }

    open spec fn eq_spec(&self, other: &Self) -> bool {
        *self == *other
    }
}

impl PartialEq for EpochId {
    fn eq(&self, other: &Self) -> (equal: bool) {
        self.0 == other.0
    }
}

/// Two identifiers are equal when their hashes are.
impl PartialEqSpecImpl for EpochId {
    open spec fn obeys_eq_spec() -> bool {
        true
    }

    open spec fn eq_spec(&self, other: &Self) -> bool {
        *self == *other
    }
}

} // verus!
