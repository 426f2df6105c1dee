//! Environment activation and rollback: environment updates are staged,
//! validated and atomically activated; the prior working environment stays
//! available until an activation succeeds.

use vstd::prelude::*;
use crate::clock::now;
use crate::text::{copy_string, owned};

verus! {

/// Activation state of an environment snapshot.
#[derive(Debug, Clone, Copy, PartialEq, Eq, Structural)]
pub enum EnvActivationState {
    Staged,
    Validated,
    Active,
    RolledBack,
}

/// A staged environment.
#[derive(Debug, Clone)]
pub struct EnvironmentSnapshot {
    pub id: i64,
    pub state: EnvActivationState,
    pub lock_path: String,
    pub staged_at: u64,
    pub activated_at: Option<u64>,
}

pub struct SnapshotView {
    pub id: int,
    pub state: EnvActivationState,
    pub lock_path: Seq<char>,
    pub staged_at: nat,
    pub activated_at: Option<u64>,
}

impl View for EnvironmentSnapshot {
    type V = SnapshotView;

    open spec fn view(&self) -> SnapshotView {
        SnapshotView {
            id: self.id as int,
            state: self.state,
            lock_path: self.lock_path@,
            staged_at: self.staged_at as nat,
            activated_at: self.activated_at,
        }
    }
}

impl EnvironmentSnapshot {
    fn duplicate(&self) -> (r: Self)
        ensures
            r@ == self@,
    {
        EnvironmentSnapshot {
            id: self.id,
            state: self.state,
            lock_path: copy_string(&self.lock_path),
            staged_at: self.staged_at,
            activated_at: self.activated_at,
        }
    }
}

pub open spec fn snapshots_view(s: Seq<EnvironmentSnapshot>) -> Seq<SnapshotView> {
    s.map_values(|x: EnvironmentSnapshot| x@)
}

/// The rollback target among `s` for `id`: scanning in staging order, each
/// active snapshot with an identifier below `id` replaces the one found so
/// far, so the last such one in staging order is the target.
pub open spec fn rollback_scan(s: Seq<SnapshotView>, id: int) -> Option<int>
    decreases s.len(),
{
    if s.len() == 0 {
        None
    } else {
        let x = s.last();
        if x.id < id && x.state == EnvActivationState::Active {
            Some(x.id)
        } else {
            rollback_scan(s.drop_last(), id)
        }
    }
}

/// The `n`-th staged environment has identifier `n`: the environment at
/// position `j` has identifier `j + 1`.
pub open spec fn ids_in_order(s: Seq<SnapshotView>) -> bool {
    forall|j: int| 0 <= j < s.len() ==> #[trigger] s[j].id == j + 1
}

/// The snapshots after `id` is marked rolled back (when it exists).
pub open spec fn mark_rolled_back(s: Seq<SnapshotView>, id: int) -> Seq<SnapshotView> {
    if 1 <= id <= s.len() {
        s.update(id - 1, SnapshotView { state: EnvActivationState::RolledBack, ..s[id - 1] })
    } else {
        s
    }
}

/// Staged environments and the active one. The `n`-th staged environment
/// has identifier `n`.
pub struct EnvironmentManager {
    snapshots: Vec<EnvironmentSnapshot>,
    next_id: i64,
    active_id: Option<i64>,
}

impl EnvironmentManager {
    #[verifier::type_invariant]
    spec fn numbered(self) -> bool {
        &&& self.next_id == self.snapshots@.len() + 1
        &&& forall|j: int| 0 <= j < self.snapshots@.len() ==> #[trigger] self.snapshots@[j].id == j + 1
    }

    /// The staged environments, in staging order.
    pub closed spec fn entries(self) -> Seq<SnapshotView> {
        snapshots_view(self.snapshots@)
    }

    /// The identifier of the active environment, if any.
    pub closed spec fn active_id(self) -> Option<i64> {
        self.active_id
    }

    pub fn new() -> (r: Self)
        ensures
            r.entries() == Seq::<SnapshotView>::empty(),
            r.active_id() is None,
            ids_in_order(r.entries()),
    {
        let r = EnvironmentManager { snapshots: Vec::new(), next_id: 1, active_id: None };
        assert(r.entries() =~= Seq::<SnapshotView>::empty());
        r
    }

    /// Stages a new environment; the active one is unchanged. Returns its
    /// identifier, one more than the number of earlier ones; the counter is
    /// 64-bit and does not wrap.
    pub fn stage(&mut self, lock_path: &str) -> (r: i64)
        requires
            old(self).entries().len() + 2 <= i64::MAX,
        ensures
            r == old(self).entries().len() + 1,
            ids_in_order(final(self).entries()),
            final(self).active_id() == old(self).active_id(),
            final(self).entries() == old(self).entries().push(
                SnapshotView {
                    id: r as int,
                    state: EnvActivationState::Staged,
                    lock_path: lock_path@,
                    staged_at: final(self).entries().last().staged_at,
                    activated_at: None,
                },
            ),
    {
        proof {
            use_type_invariant(&*self);
        }
        let ghost before = self.entries();
        let mut taken = EnvironmentManager::new();
        std::mem::swap(&mut taken, self);
        let EnvironmentManager { mut snapshots, next_id, active_id } = taken;
        let snap = EnvironmentSnapshot {
            id: next_id,
            state: EnvActivationState::Staged,
            lock_path: owned(lock_path),
            staged_at: now(),
            activated_at: None,
        };
        let ghost sv = snap@;
        snapshots.push(snap);
        *self = EnvironmentManager { snapshots, next_id: next_id + 1, active_id };
        assert(self.entries() =~= before.push(sv));
        proof {
            use_type_invariant(&*self);
        }
        next_id
    }

    /// Validates the staged environment `id`. When `valid`, it becomes the
    /// active environment; otherwise it stays as it was (a staged
    /// environment stays staged) and the prior active environment stays
    /// active. Returns whether it was activated; an unknown `id` changes
    /// nothing.
    pub fn validate_and_activate(&mut self, id: i64, valid: bool) -> (r: bool)
        ensures
            r == (valid && 1 <= id <= old(self).entries().len()),
            ids_in_order(final(self).entries()),
            !(1 <= id <= old(self).entries().len()) ==> final(self).entries() == old(
                self,
            ).entries() && final(self).active_id() == old(self).active_id(),
            1 <= id <= old(self).entries().len() && valid ==> {
                &&& final(self).active_id() == Some(id)
                &&& final(self).entries().len() == old(self).entries().len()
                &&& final(self).entries() == old(self).entries().update(
                    id - 1,
                    SnapshotView {
                        state: EnvActivationState::Active,
                        activated_at: final(self).entries()[id - 1].activated_at,
                        ..old(self).entries()[id - 1]
                    },
                )
                &&& final(self).entries()[id - 1].activated_at is Some
            },
            !valid ==> final(self).entries() == old(self).entries() && final(self).active_id()
                == old(self).active_id(),
    {
        proof {
            use_type_invariant(&*self);
        }
        let ghost before = self.entries();
        let n = self.snapshots.len();
        if valid && id >= 1 && id < self.next_id {
            assert(id - 1 < n);
            let k = (id - 1) as usize;
            let mut snap = self.snapshots[k].duplicate();
            snap.state = EnvActivationState::Validated;
            snap.state = EnvActivationState::Active;
            snap.activated_at = Some(now());
            let ghost sv = snap@;
            let mut taken = EnvironmentManager::new();
            std::mem::swap(&mut taken, self);
            let EnvironmentManager { mut snapshots, next_id, active_id } = taken;
            snapshots.set(k, snap);
            *self = EnvironmentManager { snapshots, next_id, active_id: Some(id) };
            assert(self.entries() =~= before.update(k as int, sv));
            proof {
                use_type_invariant(&*self);
            }
            true
        } else {
            proof {
                use_type_invariant(&*self);
            }
            false
        }
    }

    /// Rolls back `id`: it is marked rolled back (when it exists), and the
    /// active environment becomes the most recent active environment staged
    /// before it, the one with the greatest smaller identifier (see
    /// `rollback_scan`), which is returned; when there is none, the active
    /// environment is unchanged and `None` is returned.
    pub fn rollback(&mut self, id: i64) -> (r: Option<i64>)
        ensures
            ids_in_order(final(self).entries()),
            final(self).entries() == mark_rolled_back(old(self).entries(), id as int),
            r matches Some(p) ==> {
                &&& 1 <= p < id
                &&& p <= final(self).entries().len()
                &&& final(self).entries()[p - 1].state == EnvActivationState::Active
                &&& forall|k: int|
                    0 <= k < final(self).entries().len() && final(self).entries()[k].id < id
                        && final(self).entries()[k].state == EnvActivationState::Active
                        ==> #[trigger] final(self).entries()[k].id <= p
            },
            r is None ==> forall|k: int|
                0 <= k < final(self).entries().len() && final(self).entries()[k].id < id
                    ==> #[trigger] final(self).entries()[k].state != EnvActivationState::Active,
            r matches Some(p) ==> rollback_scan(final(self).entries(), id as int) == Some(p as int)
                && final(self).active_id() == Some(p),
            r is None ==> rollback_scan(final(self).entries(), id as int) is None
                && final(self).active_id() == old(self).active_id(),
    {
        proof {
            use_type_invariant(&*self);
        }
        let ghost before = self.entries();
        let n = self.snapshots.len();
        if id >= 1 && id < self.next_id {
            assert(id - 1 < n);
            let k = (id - 1) as usize;
            let mut snap = self.snapshots[k].duplicate();
            snap.state = EnvActivationState::RolledBack;
            let ghost sv = snap@;
            let mut taken = EnvironmentManager::new();
            std::mem::swap(&mut taken, self);
            let EnvironmentManager { mut snapshots, next_id, active_id } = taken;
            snapshots.set(k, snap);
            *self = EnvironmentManager { snapshots, next_id, active_id };
            assert(self.entries() =~= before.update(k as int, sv));
        } else {
            assert(self.entries() == mark_rolled_back(before, id as int));
        }
        let ghost es = self.entries();
        let mut prev: Option<i64> = None;
        let mut i: usize = 0;
        assert(es.subrange(0, 0) =~= Seq::<SnapshotView>::empty());
        while i < self.snapshots.len()
            invariant
                i <= self.snapshots@.len(),
                es == self.entries(),
                match prev {
                    Some(p) => rollback_scan(es.subrange(0, i as int), id as int) == Some(p as int),
                    None => rollback_scan(es.subrange(0, i as int), id as int) is None,
                },
            decreases self.snapshots.len() - i,
        {
            let s = &self.snapshots[i];
            assert(es.subrange(0, i + 1).drop_last() =~= es.subrange(0, i as int));
            assert(es.subrange(0, i + 1).last() == s@);
            if s.id < id && s.state == EnvActivationState::Active {
                prev = Some(s.id);
            }
            i = i + 1;
        }
        assert(es.subrange(0, i as int) =~= es);
        if let Some(p) = prev {
            let mut taken = EnvironmentManager::new();
            std::mem::swap(&mut taken, self);
            let EnvironmentManager { snapshots, next_id, active_id } = taken;
            *self = EnvironmentManager { snapshots, next_id, active_id: Some(p) };
        }
        proof {
            use_type_invariant(&*self);
            rollback_target_is_latest_active(self.entries(), id as int);
        }
        prev
    }

    /// The active environment, if any.
    pub fn active(&self) -> (r: Option<EnvironmentSnapshot>)
        ensures
            r matches Some(s) ==> self.active_id() matches Some(a) && 1 <= a
                <= self.entries().len() && s@ == self.entries()[a - 1],
            r is None ==> !(self.active_id() matches Some(a) && 1 <= a <= self.entries().len()),
            ids_in_order(self.entries()),
    {
        proof {
            use_type_invariant(self);
        }
        let n = self.snapshots.len();
        match self.active_id {
            Some(a) => {
                if a >= 1 && a < self.next_id {
                    assert(a - 1 < n);
                    Some(self.snapshots[(a - 1) as usize].duplicate())
                } else {
                    None
                }
            },
            None => None,
        }
    }
}

/// The rollback target is the most recent active environment staged before
/// the rolled-back one: it is active and staged before it, every other
/// active environment staged before it has a smaller identifier, and there
/// is no target exactly when no active environment was staged before it.
pub proof fn rollback_target_is_latest_active(s: Seq<SnapshotView>, id: int)
    requires
        ids_in_order(s),
    ensures
        rollback_scan(s, id) matches Some(p) ==> 1 <= p <= s.len() && p < id && s[p - 1].state
            == EnvActivationState::Active,
        rollback_scan(s, id) matches Some(p) ==> forall|k: int|
            0 <= k < s.len() && s[k].id < id && s[k].state == EnvActivationState::Active
                ==> #[trigger] s[k].id <= p,
        rollback_scan(s, id) is None ==> forall|k: int|
            0 <= k < s.len() && s[k].id < id ==> #[trigger] s[k].state
                != EnvActivationState::Active,
    decreases s.len(),
{
    if s.len() > 0 {
        let init = s.drop_last();
        assert forall|j: int| 0 <= j < init.len() implies #[trigger] init[j].id == j + 1 by {
            assert(init[j] == s[j]);
        }
        rollback_target_is_latest_active(init, id);
        let x = s.last();
        assert(x == s[s.len() - 1]);
        if !(x.id < id && x.state == EnvActivationState::Active) {
            assert forall|k: int|
                0 <= k < s.len() && s[k].id < id && s[k].state == EnvActivationState::Active
                    implies #[trigger] s[k].id <= rollback_scan(s, id)->0 by {
                if k < init.len() {
                    assert(init[k] == s[k]);
                }
            }
            assert forall|k: int| 0 <= k < s.len() && s[k].id < id && rollback_scan(s, id) is None
                implies #[trigger] s[k].state != EnvActivationState::Active by {
                if k < init.len() {
                    assert(init[k] == s[k]);
                }
            }
            if let Some(p) = rollback_scan(s, id) {
                assert(init[p - 1] == s[p - 1]);
            }
        }
    }
}

} // verus!
