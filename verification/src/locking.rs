//! File locking for artifact downloads and materialization: a key is locked
//! by at most one holder, so partial artifacts never appear at final cache
//! keys.

use vstd::prelude::*;
use crate::nameset::NameSet;

verus! {

/// Exclusive locks keyed by artifact.
pub struct LockManager {
    locks: NameSet,
}

impl LockManager {
    /// The keys whose lock is held.
    pub closed spec fn held(self) -> Set<Seq<char>> {
        self.locks.view()
    }

    pub fn new() -> (r: Self)
        ensures
            r.held() == Set::<Seq<char>>::empty(),
    {
        LockManager { locks: NameSet::new() }
    }

    /// Tries to lock `key`; returns whether it was acquired. A held key is
    /// left held and the call fails.
    pub fn try_lock(&mut self, key: &str) -> (r: bool)
        ensures
            r == !old(self).held().contains(key@),
            final(self).held() == old(self).held().insert(key@),
    {
        self.locks.insert(key)
    }

    /// Releases the lock of `key`.
    pub fn unlock(&mut self, key: &str)
        ensures
            final(self).held() == old(self).held().remove(key@),
    {
        self.locks.remove(key)
    }

    /// Whether `key` is locked.
    pub fn is_locked(&self, key: &str) -> (r: bool)
        ensures
            r == self.held().contains(key@),
    {
        self.locks.contains(key)
    }
}

} // verus!
