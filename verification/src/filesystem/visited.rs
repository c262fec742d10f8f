//! The directories that a traversal has entered, by device and number.
use std::collections::HashSet;
use vstd::prelude::*;

verus! {

broadcast use vstd::std_specs::hash::group_hash_axioms;

/// One number for a device and an object number.
pub open spec fn identity_key(identity: (u64, u64)) -> u128 {
    (identity.0 as int * 0x1_0000_0000_0000_0000 + identity.1 as int) as u128
}

/// Different identities have different numbers.
pub proof fn lemma_identity_keys_differ(a: (u64, u64), b: (u64, u64))
    ensures
        identity_key(a) == identity_key(b) ==> a == b,
        identity_key(a) as int == a.0 as int * 0x1_0000_0000_0000_0000 + a.1 as int,
{
    assert(0 <= a.0 as int * 0x1_0000_0000_0000_0000 + a.1 as int
        <= 0xffff_ffff_ffff_ffff_ffff_ffff_ffff_ffff);
    assert(0 <= b.0 as int * 0x1_0000_0000_0000_0000 + b.1 as int
        <= 0xffff_ffff_ffff_ffff_ffff_ffff_ffff_ffff);
}

/// A set of directories.
pub struct DirectorySet {
    keys: HashSet<u128>,
}

impl DirectorySet {
    /// The directories in the set.
    pub closed spec fn view(self) -> Set<(u64, u64)> {
        Set::new(|identity: (u64, u64)| self.keys@.contains(identity_key(identity)))
    }

    pub fn new() -> (set: DirectorySet)
        ensures
            set.view() == Set::<(u64, u64)>::empty(),
    {
        let set = DirectorySet { keys: HashSet::new() };
        assert(set.view() =~= Set::<(u64, u64)>::empty());
        set
    }

    /// Adds a directory and tells whether it is new.
    pub fn insert(&mut self, dev: u64, ino: u64) -> (fresh: bool)
        ensures
            fresh == !old(self).view().contains((dev, ino)),
            final(self).view() == old(self).view().insert((dev, ino)),
    {
        let ghost before = self.view();
        proof {
            lemma_identity_keys_differ((dev, ino), (dev, ino));
        }
        let key: u128 = dev as u128 * 0x1_0000_0000_0000_0000 + ino as u128;
        assert(key == identity_key((dev, ino)));
        let fresh = self.keys.insert(key);
        proof {
            assert forall|identity: (u64, u64)|
                self.view().contains(identity) == before.insert((dev, ino)).contains(identity) by {
                lemma_identity_keys_differ(identity, (dev, ino));
            }
            assert(self.view() =~= before.insert((dev, ino)));
        }
        fresh
    }
}

} // verus!
