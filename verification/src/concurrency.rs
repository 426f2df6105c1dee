//! Concurrency model: per-resource exclusive locks for repository mutation,
//! workspace runtime resolution, package artifact materialization and DB
//! transactions. Read-only operations take no lock and stay concurrent.

use vstd::prelude::*;
use crate::nameset::NameSet;

verus! {

/// Exclusive locks, one per named resource.
pub struct ResourceLocks {
    locks: NameSet,
}

impl ResourceLocks {
    /// The resources whose lock is held.
    pub closed spec fn held(self) -> Set<Seq<char>> {
        self.locks.view()
    }

    pub fn new() -> (r: Self)
        ensures
            r.held() == Set::<Seq<char>>::empty(),
    {
        ResourceLocks { locks: NameSet::new() }
    }

    /// Acquires the lock of `resource`; fails, changing nothing, when it is
    /// already held.
    pub fn acquire(&mut self, resource: &str) -> (r: bool)
        ensures
            r == !old(self).held().contains(resource@),
            final(self).held() == old(self).held().insert(resource@),
    {
        self.locks.insert(resource)
    }

    /// Releases the lock of `resource`, if held.
    pub fn release(&mut self, resource: &str)
        ensures
            final(self).held() == old(self).held().remove(resource@),
    {
        self.locks.remove(resource)
    }

    /// Whether the lock of `resource` is held.
    pub fn is_locked(&self, resource: &str) -> (r: bool)
        ensures
            r == self.held().contains(resource@),
    {
        self.locks.contains(resource)
    }
}

/// Exclusivity: once a lock is held, a second acquisition fails until the
/// lock is released; after release it can be acquired again. Locks of
/// different resources are independent.
pub proof fn lock_exclusivity(held: Set<Seq<char>>, a: Seq<char>, b: Seq<char>)
    requires
        a != b,
    ensures
        held.insert(a).contains(a),
        !held.insert(a).remove(a).contains(a),
        held.insert(a).contains(b) == held.contains(b),
        held.remove(a).contains(b) == held.contains(b),
{
}

} // verus!
