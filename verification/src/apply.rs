//! Apply records: every Ginger-mediated apply records the source agent and
//! task, the target branch, the heads before and after, the strategy and a
//! timestamp, for audit and constrained undo.

use vstd::prelude::*;
use crate::clock::now;
use crate::text::{copy_string, owned};

verus! {

/// How work was applied.
#[derive(Debug, Clone, Copy, PartialEq, Eq, Structural)]
pub enum ApplyStrategy {
    Patch,
    CherryPick,
    Merge,
}

/// One recorded apply.
#[derive(Debug, Clone)]
pub struct ApplyRecord {
    pub id: i64,
    pub agent_id: i64,
    pub task_id: Option<i64>,
    pub target_branch: String,
    pub pre_head: String,
    pub post_head: String,
    pub strategy: ApplyStrategy,
    pub timestamp: u64,
}

pub struct ApplyRecordView {
    pub id: int,
    pub agent_id: int,
    pub task_id: Option<i64>,
    pub target_branch: Seq<char>,
    pub pre_head: Seq<char>,
    pub post_head: Seq<char>,
    pub strategy: ApplyStrategy,
    pub timestamp: nat,
}

impl View for ApplyRecord {
    type V = ApplyRecordView;

    open spec fn view(&self) -> ApplyRecordView {
        ApplyRecordView {
            id: self.id as int,
            agent_id: self.agent_id as int,
            task_id: self.task_id,
            target_branch: self.target_branch@,
            pre_head: self.pre_head@,
            post_head: self.post_head@,
            strategy: self.strategy,
            timestamp: self.timestamp as nat,
        }
    }
}

impl ApplyRecord {
    fn duplicate(&self) -> (r: Self)
        ensures
            r@ == self@,
    {
        ApplyRecord {
            id: self.id,
            agent_id: self.agent_id,
            task_id: self.task_id,
            target_branch: copy_string(&self.target_branch),
            pre_head: copy_string(&self.pre_head),
            post_head: copy_string(&self.post_head),
            strategy: self.strategy,
            timestamp: self.timestamp,
        }
    }
}

pub open spec fn records_view(s: Seq<ApplyRecord>) -> Seq<ApplyRecordView> {
    s.map_values(|r: ApplyRecord| r@)
}

/// `s` lists the newest apply first: timestamps never increase along it,
/// and records with equal timestamps keep the order of their identifiers.
pub open spec fn newest_first(s: Seq<ApplyRecordView>) -> bool {
    forall|i: int, j: int|
        0 <= i < j < s.len() ==> s[i].timestamp > s[j].timestamp || (s[i].timestamp
            == s[j].timestamp && s[i].id < s[j].id)
}

/// The log of applies. The `n`-th recorded apply has identifier `n`.
pub struct ApplyLog {
    records: Vec<ApplyRecord>,
    next_id: i64,
}

impl ApplyLog {
    #[verifier::type_invariant]
    spec fn numbered(self) -> bool {
        &&& self.next_id == self.records@.len() + 1
        &&& forall|j: int| 0 <= j < self.records@.len() ==> #[trigger] self.records@[j].id == j + 1
    }

    /// The recorded applies, oldest first.
    pub closed spec fn entries(self) -> Seq<ApplyRecordView> {
        records_view(self.records@)
    }

    pub fn new() -> (r: Self)
        ensures
            r.entries() == Seq::<ApplyRecordView>::empty(),
    {
        let r = ApplyLog { records: Vec::new(), next_id: 1 };
        assert(r.entries() =~= Seq::<ApplyRecordView>::empty());
        r
    }

    /// Records an apply stamped with the current time and returns its
    /// identifier, one more than the number of earlier applies. The
    /// identifier counter is 64-bit and does not wrap.
    pub fn record(
        &mut self,
        agent_id: i64,
        task_id: Option<i64>,
        target_branch: &str,
        pre_head: &str,
        post_head: &str,
        strategy: ApplyStrategy,
    ) -> (r: i64)
        requires
            old(self).entries().len() + 2 <= i64::MAX,
        ensures
            r == old(self).entries().len() + 1,
            final(self).entries() == old(self).entries().push(
                ApplyRecordView {
                    id: r as int,
                    agent_id: agent_id as int,
                    task_id,
                    target_branch: target_branch@,
                    pre_head: pre_head@,
                    post_head: post_head@,
                    strategy,
                    timestamp: final(self).entries().last().timestamp,
                },
            ),
    {
        proof {
            use_type_invariant(&*self);
        }
        let ghost before = self.entries();
        let mut taken = ApplyLog::new();
        std::mem::swap(&mut taken, self);
        let ApplyLog { mut records, next_id } = taken;
        let id = next_id;
        let rec = ApplyRecord {
            id,
            agent_id,
            task_id,
            target_branch: owned(target_branch),
            pre_head: owned(pre_head),
            post_head: owned(post_head),
            strategy,
            timestamp: now(),
        };
        let ghost rv = rec@;
        records.push(rec);
        *self = ApplyLog { records, next_id: next_id + 1 };
        assert(self.entries() =~= before.push(rv));
        id
    }

    /// The apply with identifier `id`, if any.
    pub fn get(&self, id: i64) -> (r: Option<ApplyRecord>)
        ensures
            r matches Some(x) ==> 1 <= id <= self.entries().len() && x@ == self.entries()[id - 1],
            r is None ==> !(1 <= id <= self.entries().len()),
    {
        proof {
            use_type_invariant(self);
        }
        let n = self.records.len();
        if id >= 1 && id < self.next_id {
            assert(id - 1 < n);
            let k = (id - 1) as usize;
            Some(self.records[k].duplicate())
        } else {
            None
        }
    }

    /// All applies, newest first; applies with equal timestamps come in the
    /// order they were recorded.
    pub fn list(&self) -> (r: Vec<ApplyRecord>)
        ensures
            records_view(r@).to_multiset() == self.entries().to_multiset(),
            newest_first(records_view(r@)),
    {
        proof {
            use_type_invariant(self);
        }
        let ghost es = self.entries();
        let mut out: Vec<ApplyRecord> = Vec::new();
        let mut i: usize = 0;
        assert(es.subrange(0, 0) =~= Seq::<ApplyRecordView>::empty());
        assert(records_view(out@) =~= Seq::<ApplyRecordView>::empty());
        while i < self.records.len()
            invariant
                i <= self.records@.len(),
                es == self.entries(),
                forall|j: int| 0 <= j < es.len() ==> #[trigger] es[j].id == j + 1,
                records_view(out@).to_multiset() == es.subrange(0, i as int).to_multiset(),
                newest_first(records_view(out@)),
                forall|j: int| 0 <= j < out@.len() ==> #[trigger] out@[j].id <= i,
            decreases self.records.len() - i,
        {
            let rec = self.records[i].duplicate();
            assert(es[i as int] == rec@);
            let ts = rec.timestamp;
            let ghost before = records_view(out@);
            let mut p: usize = 0;
            while p < out.len() && out[p].timestamp >= ts
                invariant
                    p <= out@.len(),
                    forall|j: int| 0 <= j < p ==> #[trigger] out@[j].timestamp >= ts,
                decreases out.len() - p,
            {
                p = p + 1;
            }
            let ghost rv = rec@;
            let ghost old_out = out@;
            out.insert(p, rec);
            proof {
                let after = records_view(out@);
                assert(after =~= before.insert(p as int, rv));
                assert(before =~= after.remove(p as int));
                assert(after[p as int] == rv);
                broadcast use vstd::seq_lib::group_to_multiset_ensures;
                assert(after.remove(p as int).to_multiset() =~= after.to_multiset().remove(rv));
                assert(after.contains(rv));
                assert(after.to_multiset().count(rv) > 0);
                assert(after.to_multiset() =~= before.to_multiset().insert(rv));
                assert(es.subrange(0, i + 1) =~= es.subrange(0, i as int).push(rv));
                assert(es.subrange(0, i + 1).to_multiset() =~= es.subrange(
                    0,
                    i as int,
                ).to_multiset().insert(rv));
                assert forall|a: int, b: int| 0 <= a < b < after.len() implies after[a].timestamp
                    > after[b].timestamp || (after[a].timestamp == after[b].timestamp
                    && after[a].id < after[b].id) by {
                    if b < p {
                        assert(after[a] == before[a] && after[b] == before[b]);
                    } else if b == p {
                        assert(after[a] == before[a]);
                        assert(old_out[a].timestamp >= ts);
                        assert(old_out[a].id <= i);
                    } else if a == p {
                        assert(after[b] == before[b - 1]);
                        if b - 1 == p {
                            assert(!(old_out[p as int].timestamp >= ts));
                        } else {
                            assert(before[p as int].timestamp > before[b - 1].timestamp || (
                            before[p as int].timestamp == before[b - 1].timestamp
                                && before[p as int].id < before[b - 1].id));
                            assert(!(old_out[p as int].timestamp >= ts));
                        }
                    } else if a < p {
                        assert(after[a] == before[a] && after[b] == before[b - 1]);
                    } else {
                        assert(after[a] == before[a - 1] && after[b] == before[b - 1]);
                    }
                }
                assert forall|j: int| 0 <= j < out@.len() implies #[trigger] out@[j].id <= i + 1 by {
                    if j < p {
                        assert(out@[j] == old_out[j]);
                    } else if j > p {
                        assert(out@[j] == old_out[j - 1]);
                    }
                }
            }
            i = i + 1;
        }
        assert(es.subrange(0, i as int) =~= es);
        out
    }
}

} // verus!
