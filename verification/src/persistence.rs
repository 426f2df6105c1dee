//! The persistence layout: the data root under the home directory, its
//! subdirectories and database file, the rotation of database backups, and
//! the transaction a migration runs in.

use crate::paths::{join_path, path_join};
use crate::text::{concat, concat3, owned};
use vstd::prelude::*;

verus! {

#[derive(Debug, Clone)]
pub enum PersistenceError {
    Inner(String),
}

impl PersistenceError {
    /// The error's message: `persistence error: ` and its detail.
    pub fn to_text(&self) -> (r: String)
        ensures
            r@ == "persistence error: "@ + match *self {
                PersistenceError::Inner(s) => s@,
            },
    {
        match self {
            PersistenceError::Inner(s) => concat("persistence error: ", s.as_str()),
        }
    }

    /// The error of a step `context` that failed with `reason`.
    pub fn failed(context: &str, reason: &str) -> (r: Self)
        ensures
            r matches PersistenceError::Inner(s) && s@ == context@ + ": "@ + reason@,
    {
        PersistenceError::Inner(concat3(context, ": ", reason))
    }
}

/// The subdirectories of the data root.
pub open spec fn subdirectory_names() -> Seq<Seq<char>> {
    seq!["cache"@, "workspaces"@, "worktrees"@, "logs"@, "backups"@, "data"@]
}

/// The database file of a data root.
pub open spec fn database_file(data_root: Seq<char>) -> Seq<char> {
    path_join(path_join(data_root, "data"@), "ginger.sqlite"@)
}

/// Modification time `a` is later than `b`; times are nanoseconds from the
/// Unix epoch, and an unknown time is earlier than every known one.
pub open spec fn key_after(a: Option<i128>, b: Option<i128>) -> bool {
    match (a, b) {
        (Some(x), Some(y)) => x > y,
        (Some(_), None) => true,
        _ => false,
    }
}

/// `x` placed into `s`, which is ordered by modification time, after every
/// backup that is not newer.
pub open spec fn insert_by_time(s: Seq<(Seq<char>, Option<i128>)>, x: (Seq<char>, Option<i128>)) -> Seq<
    (Seq<char>, Option<i128>),
>
    decreases s.len(),
{
    if s.len() == 0 {
        seq![x]
    } else if key_after(s.last().1, x.1) {
        insert_by_time(s.drop_last(), x).push(s.last())
    } else {
        s.push(x)
    }
}

/// The backups ordered from oldest to newest, those of the same time in
/// the order they were listed; an unknown time counts as the oldest.
pub open spec fn by_time(s: Seq<(Seq<char>, Option<i128>)>) -> Seq<(Seq<char>, Option<i128>)>
    decreases s.len(),
{
    if s.len() == 0 {
        seq![]
    } else {
        insert_by_time(by_time(s.drop_last()), s.last())
    }
}

/// The backups to delete so that only the five newest remain.
pub open spec fn pruned(s: Seq<(Seq<char>, Option<i128>)>) -> Seq<Seq<char>> {
    if s.len() > 5 {
        by_time(s).take(s.len() - 5).map_values(|b: (Seq<char>, Option<i128>)| b.0)
    } else {
        seq![]
    }
}

pub open spec fn backups_view(s: Seq<(String, Option<i128>)>) -> Seq<(Seq<char>, Option<i128>)> {
    s.map_values(|b: (String, Option<i128>)| (b.0@, b.1))
}

proof fn lemma_insert_at(s: Seq<(Seq<char>, Option<i128>)>, x: (Seq<char>, Option<i128>), p: int)
    requires
        0 <= p <= s.len(),
        forall|j: int| p <= j < s.len() ==> key_after(#[trigger] s[j].1, x.1),
        p > 0 ==> !key_after(s[p - 1].1, x.1),
    ensures
        insert_by_time(s, x) == s.insert(p, x),
    decreases s.len(),
{
    if s.len() == 0 {
        assert(s.insert(p, x) =~= seq![x]);
    } else if s.len() == p {
        assert(s.insert(p, x) =~= s.push(x));
    } else {
        lemma_insert_at(s.drop_last(), x, p);
        assert(s.drop_last().insert(p, x).push(s.last()) =~= s.insert(p, x));
    }
}

fn after(a: Option<i128>, b: Option<i128>) -> (r: bool)
    ensures
        r == key_after(a, b),
{
    match (a, b) {
        (Some(x), Some(y)) => x > y,
        (Some(_), None) => true,
        _ => false,
    }
}

/// The layout of the data root.
pub struct PersistenceService {
    data_root: String,
    db_path: String,
}

impl PersistenceService {
    pub closed spec fn root(self) -> Seq<char> {
        self.data_root@
    }

    pub closed spec fn database(self) -> Seq<char> {
        self.db_path@
    }

    /// The data root `.ginger` under the home directory; an error when there
    /// is no home directory.
    pub fn data_root_for(home: Option<String>) -> (r: Result<String, PersistenceError>)
        ensures
            match home {
                Some(h) => r matches Ok(d) && d@ == path_join(h@, ".ginger"@),
                None => r matches Err(PersistenceError::Inner(m)) && m@ == "no home directory"@,
            },
    {
        match home {
            Some(h) => Ok(join_path(h.as_str(), ".ginger")),
            None => Err(PersistenceError::Inner(owned("no home directory"))),
        }
    }

    /// The subdirectories to create under the data root, each with its
    /// path: cache, workspaces, worktrees, logs, backups and data.
    pub fn subdirectories(data_root: &str) -> (r: Vec<(String, String)>)
        ensures
            r@.len() == 6,
            forall|i: int|
                0 <= i < 6 ==> (#[trigger] r@[i]).0@ == subdirectory_names()[i] && r@[i].1@
                    == path_join(data_root@, subdirectory_names()[i]),
    {
        let names: [&str; 6] = ["cache", "workspaces", "worktrees", "logs", "backups", "data"];
        let ghost nv = names@.map_values(|s: &str| s@);
        assert(nv =~= subdirectory_names());
        let mut out: Vec<(String, String)> = Vec::new();
        let mut i: usize = 0;
        while i < 6
            invariant
                i <= 6,
                nv == names@.map_values(|s: &str| s@),
                nv == subdirectory_names(),
                out@.len() == i,
                forall|j: int|
                    0 <= j < i ==> (#[trigger] out@[j]).0@ == nv[j] && out@[j].1@ == path_join(
                        data_root@,
                        nv[j],
                    ),
            decreases 6 - i,
        {
            let n = names[i];
            assert(nv[i as int] == n@);
            out.push((owned(n), join_path(data_root, n)));
            i = i + 1;
        }
        out
    }

    /// The error of a subdirectory that could not be created.
    pub fn create_failed(subdir: &str, reason: &str) -> (r: PersistenceError)
        ensures
            r matches PersistenceError::Inner(s) && s@ == "create "@ + subdir@ + ": "@ + reason@,
    {
        let head = concat("create ", subdir);
        PersistenceError::Inner(concat3(head.as_str(), ": ", reason))
    }

    /// The service for `data_root`, whose database is `data/ginger.sqlite`.
    pub fn new(data_root: String) -> (r: Self)
        ensures
            r.root() == data_root@,
            r.database() == database_file(data_root@),
    {
        let d = join_path(data_root.as_str(), "data");
        let db_path = join_path(d.as_str(), "ginger.sqlite");
        PersistenceService { data_root, db_path }
    }

    pub fn data_root(&self) -> (r: &String)
        ensures
            r@ == self.root(),
    {
        &self.data_root
    }

    pub fn db_path(&self) -> (r: &String)
        ensures
            r@ == self.database(),
    {
        &self.db_path
    }

    /// Where the database is backed up before a migration, for the time
    /// stamp `stamp`.
    pub fn migration_backup(&self, stamp: &str) -> (r: String)
        ensures
            r@ == path_join(path_join(self.root(), "backups"@), "ginger_"@ + stamp@ + ".sqlite"@),
    {
        let d = join_path(self.data_root.as_str(), "backups");
        let name = concat3("ginger_", stamp, ".sqlite");
        join_path(d.as_str(), name.as_str())
    }

    /// The backups to delete so that the five newest remain: the oldest
    /// ones by modification time, those of equal time in listing order.
    pub fn backups_to_prune(backups: &Vec<(String, Option<i128>)>) -> (r: Vec<String>)
        ensures
            r@.map_values(|s: String| s@) == pruned(backups_view(backups@)),
    {
        let ghost bv = backups_view(backups@);
        let mut sorted: Vec<(String, Option<i128>)> = Vec::new();
        let mut i: usize = 0;
        while i < backups.len()
            invariant
                i <= backups@.len(),
                bv == backups_view(backups@),
                backups_view(sorted@) == by_time(bv.subrange(0, i as int)),
            decreases backups.len() - i,
        {
            let x = (backups[i].0.clone(), backups[i].1);
            let ghost xv = (x.0@, x.1);
            assert(bv[i as int] == xv);
            assert(bv.subrange(0, i + 1).drop_last() =~= bv.subrange(0, i as int));
            let ghost before = backups_view(sorted@);
            let mut p: usize = sorted.len();
            while p > 0 && after(sorted[p - 1].1, x.1)
                invariant
                    p <= sorted@.len(),
                    before == backups_view(sorted@),
                    xv == (x.0@, x.1),
                    forall|j: int| p <= j < before.len() ==> key_after(#[trigger] before[j].1, xv.1),
                decreases p,
            {
                assert(before[p - 1] == (sorted@[p - 1].0@, sorted@[p - 1].1));
                p = p - 1;
            }
            proof {
                if p > 0 {
                    assert(before[p - 1] == (sorted@[p - 1].0@, sorted@[p - 1].1));
                }
                lemma_insert_at(before, xv, p as int);
            }
            sorted.insert(p, x);
            assert(backups_view(sorted@) =~= before.insert(p as int, xv));
            i = i + 1;
        }
        assert(bv.subrange(0, i as int) =~= bv);
        let mut out: Vec<String> = Vec::new();
        if backups.len() > 5 {
            let n = backups.len() - 5;
            let ghost sv = backups_view(sorted@);
            assert(sv.len() == bv.len()) by {
                lemma_by_time_len(bv);
            }
            let mut k: usize = 0;
            while k < n
                invariant
                    k <= n,
                    n == bv.len() - 5,
                    sv == backups_view(sorted@),
                    sv.len() == bv.len(),
                    out@.map_values(|s: String| s@) == sv.take(k as int).map_values(
                        |b: (Seq<char>, Option<i128>)| b.0,
                    ),
                decreases n - k,
            {
                let ghost prev = out@.map_values(|s: String| s@);
                out.push(sorted[k].0.clone());
                assert(sv[k as int].0 == sorted@[k as int].0@);
                assert(out@.map_values(|s: String| s@) =~= prev.push(sv[k as int].0));
                assert(sv.take(k + 1).map_values(|b: (Seq<char>, Option<i128>)| b.0) =~= sv.take(
                    k as int,
                ).map_values(|b: (Seq<char>, Option<i128>)| b.0).push(sv[k as int].0));
                k = k + 1;
            }
        } else {
            assert(out@.map_values(|s: String| s@) =~= Seq::<Seq<char>>::empty());
        }
        out
    }

    /// The script a migration runs: its statements inside one transaction.
    pub fn migration_script(sql: &str) -> (r: String)
        ensures
            r@ == "BEGIN; "@ + sql@ + " COMMIT;"@,
    {
        concat3("BEGIN; ", sql, " COMMIT;")
    }
}

proof fn lemma_insert_len(s: Seq<(Seq<char>, Option<i128>)>, x: (Seq<char>, Option<i128>))
    ensures
        insert_by_time(s, x).len() == s.len() + 1,
    decreases s.len(),
{
    if s.len() > 0 {
        lemma_insert_len(s.drop_last(), x);
    }
}

proof fn lemma_by_time_len(s: Seq<(Seq<char>, Option<i128>)>)
    ensures
        by_time(s).len() == s.len(),
    decreases s.len(),
{
    if s.len() > 0 {
        lemma_by_time_len(s.drop_last());
        lemma_insert_len(by_time(s.drop_last()), s.last());
    }
}


/// Pruning leaves exactly the five newest backups: it deletes all but five
/// when there are more, and nothing otherwise.
pub proof fn pruning_keeps_five(s: Seq<(Seq<char>, Option<i128>)>)
    ensures
        pruned(s).len() == if s.len() > 5 {
            s.len() - 5
        } else {
            0
        },
{
    lemma_by_time_len(s);
}

} // verus!
