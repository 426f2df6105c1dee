//! Shared cache management: size reporting and pruning of unused artifacts.
//! Artifacts referenced by an active workspace lock are never removed.

use vstd::prelude::*;
use crate::text::{copy_string, first_match, lemma_first_match_is, owned};

verus! {

/// A cached artifact.
#[derive(Debug, Clone)]
pub struct CacheArtifact {
    pub key: String,
    pub size_bytes: u64,
    pub referenced_by_lock: bool,
}

pub struct CacheArtifactView {
    pub key: Seq<char>,
    pub size_bytes: nat,
    pub referenced_by_lock: bool,
}

impl View for CacheArtifact {
    type V = CacheArtifactView;

    open spec fn view(&self) -> CacheArtifactView {
        CacheArtifactView {
            key: self.key@,
            size_bytes: self.size_bytes as nat,
            referenced_by_lock: self.referenced_by_lock,
        }
    }
}

impl CacheArtifact {
    fn duplicate(&self) -> (r: Self)
        ensures
            r@ == self@,
    {
        CacheArtifact {
            key: copy_string(&self.key),
            size_bytes: self.size_bytes,
            referenced_by_lock: self.referenced_by_lock,
        }
    }
}

pub open spec fn artifacts_view(s: Seq<CacheArtifact>) -> Seq<CacheArtifactView> {
    s.map_values(|a: CacheArtifact| a@)
}

pub open spec fn artifact_keys(s: Seq<CacheArtifactView>) -> Seq<Seq<char>> {
    s.map_values(|a: CacheArtifactView| a.key)
}

/// The artifacts after adding `a`: it replaces the artifact with its key, or
/// is appended.
pub open spec fn upsert_artifact(s: Seq<CacheArtifactView>, a: CacheArtifactView) -> Seq<
    CacheArtifactView,
> {
    let k = first_match(artifact_keys(s), a.key);
    if k < s.len() {
        s.update(k, a)
    } else {
        s.push(a)
    }
}

/// The total size of the artifacts.
pub open spec fn total_bytes(s: Seq<CacheArtifactView>) -> nat
    decreases s.len(),
{
    if s.len() == 0 {
        0
    } else {
        total_bytes(s.drop_last()) + s.last().size_bytes
    }
}

pub open spec fn is_referenced(a: CacheArtifactView) -> bool {
    a.referenced_by_lock
}

pub open spec fn is_unreferenced(a: CacheArtifactView) -> bool {
    !a.referenced_by_lock
}

/// The artifacts that pruning keeps: those referenced by a lock.
pub open spec fn kept_by_prune(s: Seq<CacheArtifactView>) -> Seq<CacheArtifactView> {
    s.filter(|a: CacheArtifactView| is_referenced(a))
}

/// The artifacts that pruning removes: those no lock references.
pub open spec fn removed_by_prune(s: Seq<CacheArtifactView>) -> Seq<CacheArtifactView> {
    s.filter(|a: CacheArtifactView| is_unreferenced(a))
}

/// The shared artifact cache.
pub struct CacheManager {
    artifacts: Vec<CacheArtifact>,
}

impl CacheManager {
    /// The cached artifacts, in the order they were first added.
    pub closed spec fn entries(self) -> Seq<CacheArtifactView> {
        artifacts_view(self.artifacts@)
    }

    pub fn new() -> (r: Self)
        ensures
            r.entries() == Seq::<CacheArtifactView>::empty(),
    {
        let r = CacheManager { artifacts: Vec::new() };
        assert(r.entries() =~= Seq::<CacheArtifactView>::empty());
        r
    }

    /// Adds an artifact, replacing any artifact with the same key.
    pub fn add(&mut self, key: &str, size_bytes: u64, referenced: bool)
        ensures
            final(self).entries() == upsert_artifact(
                old(self).entries(),
                CacheArtifactView {
                    key: key@,
                    size_bytes: size_bytes as nat,
                    referenced_by_lock: referenced,
                },
            ),
    {
        let target = owned(key);
        let ghost keys = artifact_keys(self.entries());
        let mut i: usize = 0;
        while i < self.artifacts.len() && !(self.artifacts[i].key == target)
            invariant
                i <= self.artifacts@.len(),
                target@ == key@,
                keys == artifact_keys(self.entries()),
                forall|j: int| 0 <= j < i ==> keys[j] != key@,
            decreases self.artifacts.len() - i,
        {
            assert(keys[i as int] == self.artifacts@[i as int].key@);
            i = i + 1;
        }
        if i < self.artifacts.len() {
            assert(keys[i as int] == self.artifacts@[i as int].key@);
        }
        proof {
            lemma_first_match_is(keys, key@, i as int);
        }
        let a = CacheArtifact { key: target, size_bytes, referenced_by_lock: referenced };
        let ghost av = a@;
        let ghost before = self.entries();
        if i < self.artifacts.len() {
            self.artifacts.set(i, a);
            assert(self.entries() =~= before.update(i as int, av));
        } else {
            self.artifacts.push(a);
            assert(self.entries() =~= before.push(av));
        }
    }

    /// The total size of the cached artifacts. Totals past `u64::MAX` are
    /// left out: the sum does not wrap.
    pub fn total_size(&self) -> (r: u64)
        requires
            total_bytes(self.entries()) <= u64::MAX,
        ensures
            r == total_bytes(self.entries()),
    {
        let ghost es = self.entries();
        let mut total: u64 = 0;
        let mut i: usize = 0;
        while i < self.artifacts.len()
            invariant
                i <= self.artifacts@.len(),
                es == self.entries(),
                total_bytes(es) <= u64::MAX,
                total == total_bytes(es.subrange(0, i as int)),
            decreases self.artifacts.len() - i,
        {
            proof {
                assert(es.subrange(0, i + 1).drop_last() =~= es.subrange(0, i as int));
                lemma_total_prefix(es, i + 1);
            }
            total = total + self.artifacts[i].size_bytes;
            i = i + 1;
        }
        assert(es.subrange(0, i as int) =~= es);
        total
    }

    /// Prunes every artifact not referenced by a workspace lock and returns
    /// their keys; lock-referenced artifacts are kept, in order.
    pub fn prune(&mut self) -> (r: Vec<String>)
        ensures
            final(self).entries() == kept_by_prune(old(self).entries()),
            r@.map_values(|k: String| k@) == artifact_keys(removed_by_prune(old(self).entries())),
    {
        let ghost es = self.entries();
        let ghost keep = |a: CacheArtifactView| is_referenced(a);
        let ghost drop = |a: CacheArtifactView| is_unreferenced(a);
        let mut kept: Vec<CacheArtifact> = Vec::new();
        let mut removed: Vec<String> = Vec::new();
        let mut i: usize = 0;
        assert(es.subrange(0, 0) =~= Seq::<CacheArtifactView>::empty());
        while i < self.artifacts.len()
            invariant
                i <= self.artifacts@.len(),
                es == self.entries(),
                keep == (|a: CacheArtifactView| is_referenced(a)),
                drop == (|a: CacheArtifactView| is_unreferenced(a)),
                artifacts_view(kept@) == es.subrange(0, i as int).filter(keep),
                removed@.map_values(|k: String| k@) == artifact_keys(
                    es.subrange(0, i as int).filter(drop),
                ),
            decreases self.artifacts.len() - i,
        {
            let a = &self.artifacts[i];
            let ghost av = a@;
            let ghost bk = artifacts_view(kept@);
            let ghost br = removed@.map_values(|k: String| k@);
            proof {
                assert(es.subrange(0, i + 1) =~= es.subrange(0, i as int).push(av));
                es.subrange(0, i as int).lemma_filter_push(av, keep);
                es.subrange(0, i as int).lemma_filter_push(av, drop);
            }
            if a.referenced_by_lock {
                kept.push(a.duplicate());
                assert(artifacts_view(kept@) =~= bk.push(av));
            } else {
                removed.push(copy_string(&a.key));
                assert(removed@.map_values(|k: String| k@) =~= br.push(av.key));
                assert(artifact_keys(es.subrange(0, i as int).filter(drop).push(av))
                    =~= artifact_keys(es.subrange(0, i as int).filter(drop)).push(av.key));
            }
            i = i + 1;
        }
        assert(es.subrange(0, i as int) =~= es);
        self.artifacts = kept;
        removed
    }

    /// All cached artifacts.
    pub fn list(&self) -> (r: Vec<CacheArtifact>)
        ensures
            artifacts_view(r@) == self.entries(),
    {
        let mut out: Vec<CacheArtifact> = Vec::new();
        let mut i: usize = 0;
        while i < self.artifacts.len()
            invariant
                i <= self.artifacts@.len(),
                artifacts_view(out@) == self.entries().subrange(0, i as int),
            decreases self.artifacts.len() - i,
        {
            let ghost before = artifacts_view(out@);
            let a = self.artifacts[i].duplicate();
            assert(self.entries()[i as int] == a@);
            out.push(a);
            assert(artifacts_view(out@) =~= before.push(a@));
            assert(artifacts_view(out@) =~= self.entries().subrange(0, i + 1));
            i = i + 1;
        }
        assert(self.entries().subrange(0, i as int) =~= self.entries());
        out
    }
}

proof fn lemma_total_prefix(s: Seq<CacheArtifactView>, k: int)
    requires
        0 <= k <= s.len(),
    ensures
        total_bytes(s.subrange(0, k)) <= total_bytes(s),
    decreases s.len() - k,
{
    if k < s.len() {
        lemma_total_prefix(s, k + 1);
        assert(s.subrange(0, k + 1).drop_last() =~= s.subrange(0, k));
    } else {
        assert(s.subrange(0, k) =~= s);
    }
}

/// Pruning never removes a lock-referenced artifact: every artifact
/// referenced before pruning is still cached afterwards, and everything
/// left is referenced.
pub proof fn prune_keeps_referenced(s: Seq<CacheArtifactView>, i: int)
    requires
        0 <= i < s.len(),
        s[i].referenced_by_lock,
    ensures
        kept_by_prune(s).contains(s[i]),
        forall|j: int|
            0 <= j < kept_by_prune(s).len() ==> (#[trigger] kept_by_prune(s)[j]).referenced_by_lock,
{
    s.lemma_filter_contains(|a: CacheArtifactView| is_referenced(a), i);
    assert forall|j: int| 0 <= j < kept_by_prune(s).len() implies (#[trigger] kept_by_prune(
        s,
    )[j]).referenced_by_lock by {
        s.lemma_filter_pred(|a: CacheArtifactView| is_referenced(a), j);
    }
}

} // verus!
