//! Crash recovery and safe mode. A heartbeat tells an abnormal shutdown
//! apart; recovery reconciles the worktrees left on disk and backs up the
//! database. Work found in worktrees is preserved, never deleted.

use crate::agent::opt_view;
use crate::detection::FileEvidence;
use crate::paths::{file_name, file_name_of, join_path, path_join};
use crate::text::{
    chars_of, concat, concat3, copy_string, decimal, has_prefix, lines, owned, split_lines,
    starts_with, string_of, trim, trim_chars, trim_prefix_all, trim_prefix_repeated,
    u64_to_decimal,
};
use std::time::{Duration, Instant};
use vstd::prelude::*;

verus! {

#[verifier::external_type_specification]
#[verifier::external_body]
pub struct ExInstant(Instant);

/// `Instant::now`: a reading of the monotonic clock. Nothing is stated of it.
#[verifier::external_body]
fn instant_now() -> (r: Instant) {
    Instant::now()
}

/// `Instant::elapsed`: the time since `t`. It depends on the clock, so
/// nothing is stated of it.
#[verifier::external_body]
fn elapsed_since(t: &Instant) -> (r: Duration) {
    t.elapsed()
}

/// `Duration::as_nanos`: the whole duration in nanoseconds. A `Duration` is
/// opaque here, so nothing is stated of the number.
#[verifier::external_body]
fn total_nanos(d: &Duration) -> (r: u128) {
    d.as_nanos()
}

#[derive(Debug, Clone)]
pub enum RecoveryError {
    Inner(String),
}

#[derive(Debug, Clone, Copy, PartialEq, Eq, Structural)]
pub enum SessionStatus {
    Open,
    Closing,
    Closed,
    Crashed,
}

#[derive(Debug, Clone)]
pub struct Heartbeat {
    pub session_id: i64,
    pub last_beat: String,
    pub app_version: String,
}

/// What recovery found and did.
#[derive(Debug, Clone)]
pub struct RecoveryReport {
    pub crashed_sessions: Vec<i64>,
    pub recovered_worktrees: Vec<RecoveryWorktree>,
    pub actions: Vec<RecoveryAction>,
    pub safe_mode: bool,
}

/// A worktree found on disk.
#[derive(Debug, Clone)]
pub struct RecoveryWorktree {
    pub path: String,
    pub branch: String,
    pub status: String,
    pub has_unapplied_changes: bool,
    pub owner_agent_id: Option<i64>,
}

/// One step recovery took.
#[derive(Debug, Clone)]
pub struct RecoveryAction {
    pub action: String,
    pub target: String,
    pub result: String,
}

/// What a scan of the worktrees directory saw for one of its entries.
#[derive(Debug, Clone)]
pub struct ScannedEntry {
    pub path: String,
    pub is_dir: bool,
    /// The entry's `.git` file.
    pub git_file: FileEvidence,
    /// Whether `git status --porcelain` reported changes in it.
    pub has_changes: bool,
}

pub struct RecoveryWorktreeView {
    pub path: Seq<char>,
    pub branch: Seq<char>,
    pub status: Seq<char>,
    pub has_unapplied_changes: bool,
    pub owner_agent_id: Option<i64>,
}

impl View for RecoveryWorktree {
    type V = RecoveryWorktreeView;

    open spec fn view(&self) -> RecoveryWorktreeView {
        RecoveryWorktreeView {
            path: self.path@,
            branch: self.branch@,
            status: self.status@,
            has_unapplied_changes: self.has_unapplied_changes,
            owner_agent_id: self.owner_agent_id,
        }
    }
}

pub open spec fn worktrees_view(s: Seq<RecoveryWorktree>) -> Seq<RecoveryWorktreeView> {
    s.map_values(|w: RecoveryWorktree| w@)
}

pub struct RecoveryActionView {
    pub action: Seq<char>,
    pub target: Seq<char>,
    pub result: Seq<char>,
}

impl View for RecoveryAction {
    type V = RecoveryActionView;

    open spec fn view(&self) -> RecoveryActionView {
        RecoveryActionView { action: self.action@, target: self.target@, result: self.result@ }
    }
}

pub open spec fn actions_view(s: Seq<RecoveryAction>) -> Seq<RecoveryActionView> {
    s.map_values(|a: RecoveryAction| a@)
}

/// The position of the first line that starts with `p`, or the number of
/// lines.
pub open spec fn first_with_prefix(ls: Seq<Seq<char>>, p: Seq<char>) -> int
    decreases ls.len(),
{
    if ls.len() == 0 {
        0
    } else if has_prefix(ls[0], p) {
        0
    } else {
        1 + first_with_prefix(ls.drop_first(), p)
    }
}

proof fn lemma_first_with_prefix_is(ls: Seq<Seq<char>>, p: Seq<char>, k: int)
    requires
        0 <= k <= ls.len(),
        forall|j: int| 0 <= j < k ==> !has_prefix(#[trigger] ls[j], p),
        k < ls.len() ==> has_prefix(ls[k], p),
    ensures
        first_with_prefix(ls, p) == k,
    decreases ls.len(),
{
    if ls.len() > 0 && k > 0 {
        assert forall|j: int| 0 <= j < k - 1 implies !has_prefix(#[trigger] ls.drop_first()[j], p) by {
            assert(ls.drop_first()[j] == ls[j + 1]);
        }
        lemma_first_with_prefix_is(ls.drop_first(), p, k - 1);
    }
}

/// The branch a worktree's `.git` file points at: the file name of the
/// directory named on its first `gitdir:` line.
pub open spec fn git_file_branch(content: Seq<char>) -> Option<Seq<char>> {
    let ls = lines(content);
    let k = first_with_prefix(ls, "gitdir:"@);
    if 0 <= k < ls.len() {
        file_name(trim(trim_prefix_all(ls[k], "gitdir:"@)))
    } else {
        None
    }
}

/// The branch recorded for a worktree, `unknown` when its `.git` file cannot
/// be read or names none.
pub open spec fn worktree_branch(git_file: FileEvidence) -> Seq<char> {
    match git_file {
        FileEvidence::Content(s) => match git_file_branch(s@) {
            Some(b) => b,
            None => "unknown"@,
        },
        _ => "unknown"@,
    }
}

/// An entry is a worktree when it is a directory with a `.git` file.
pub open spec fn is_worktree(e: ScannedEntry) -> bool {
    e.is_dir && !(e.git_file is Absent)
}

/// The worktree recovered from an entry.
pub open spec fn recovered(e: ScannedEntry) -> RecoveryWorktreeView {
    RecoveryWorktreeView {
        path: e.path@,
        branch: worktree_branch(e.git_file),
        status: if e.has_changes {
            "active"@
        } else {
            "stale"@
        },
        has_unapplied_changes: e.has_changes,
        owner_agent_id: None,
    }
}

/// The worktrees recovered from the entries of a scan, in order.
pub open spec fn recovered_all(s: Seq<ScannedEntry>) -> Seq<RecoveryWorktreeView>
    decreases s.len(),
{
    if s.len() == 0 {
        seq![]
    } else {
        recovered_all(s.drop_last()) + if is_worktree(s.last()) {
            seq![recovered(s.last())]
        } else {
            seq![]
        }
    }
}

/// The directory holding the worktrees of a data root.
pub open spec fn worktrees_dir(data_root: Seq<char>) -> Seq<char> {
    path_join(data_root, "worktrees"@)
}

/// The actions of a recovery that found `found` worktrees and made the
/// backup `backup`, if any.
pub open spec fn recovery_actions(
    data_root: Seq<char>,
    found: nat,
    backup: Option<Seq<char>>,
) -> Seq<RecoveryActionView> {
    (if found > 0 {
        seq![
            RecoveryActionView {
                action: "scan_worktrees"@,
                target: worktrees_dir(data_root),
                result: "Found "@ + decimal(found as int) + " worktrees"@,
            },
        ]
    } else {
        seq![]
    }) + match backup {
        Some(b) => seq![
            RecoveryActionView {
                action: "backup_db"@,
                target: b,
                result: "Database backed up before recovery"@,
            },
        ],
        None => seq![],
    }
}

/// The service that watches the heartbeat and recovers after a crash.
pub struct RecoveryService {
    last_heartbeat: Option<Instant>,
    heartbeat_interval_secs: u64,
    safe_mode: bool,
}

impl RecoveryService {
    /// Whether a heartbeat has been recorded.
    pub closed spec fn beating(self) -> bool {
        self.last_heartbeat is Some
    }

    /// The interval between heartbeats, in seconds.
    pub closed spec fn interval(self) -> u64 {
        self.heartbeat_interval_secs
    }

    pub closed spec fn in_safe_mode(self) -> bool {
        self.safe_mode
    }

    /// A service with no heartbeat yet, a 30-second interval, and safe mode
    /// off.
    pub fn new() -> (r: Self)
        ensures
            !r.beating(),
            r.interval() == 30,
            !r.in_safe_mode(),
    {
        RecoveryService { last_heartbeat: None, heartbeat_interval_secs: 30, safe_mode: false }
    }

    /// Records a heartbeat now.
    pub fn heartbeat(&mut self)
        ensures
            final(self).beating(),
            final(self).interval() == old(self).interval(),
            final(self).in_safe_mode() == old(self).in_safe_mode(),
    {
        self.last_heartbeat = Some(instant_now());
    }

    /// Whether `elapsed_nanos` nanoseconds since the last heartbeat exceed
    /// two intervals.
    pub fn overdue(&self, elapsed_nanos: u128) -> (r: bool)
        ensures
            r == (elapsed_nanos > 2 * self.interval() * 1_000_000_000),
    {
        let limit: u128 = (self.heartbeat_interval_secs as u128) * 2 * 1_000_000_000;
        elapsed_nanos > limit
    }

    /// Whether the last heartbeat is older than two intervals, which marks a
    /// crash; never without a heartbeat. How much time has passed depends on
    /// the clock.
    pub fn is_stale(&self) -> (r: bool)
        ensures
            !self.beating() ==> !r,
    {
        match &self.last_heartbeat {
            Some(t) => {
                let d = elapsed_since(t);
                self.overdue(total_nanos(&d))
            },
            None => false,
        }
    }

    /// Turns safe mode on: user Lua and optional packages are disabled.
    pub fn enter_safe_mode(&mut self)
        ensures
            final(self).in_safe_mode(),
            final(self).beating() == old(self).beating(),
            final(self).interval() == old(self).interval(),
    {
        self.safe_mode = true;
    }

    /// Turns safe mode off.
    pub fn exit_safe_mode(&mut self)
        ensures
            !final(self).in_safe_mode(),
            final(self).beating() == old(self).beating(),
            final(self).interval() == old(self).interval(),
    {
        self.safe_mode = false;
    }

    pub fn is_safe_mode(&self) -> (r: bool)
        ensures
            r == self.in_safe_mode(),
    {
        self.safe_mode
    }

    /// The branch named by a worktree's `.git` file content.
    pub fn branch_from_git_file(content: &str) -> (r: Option<String>)
        ensures
            r matches Some(b) ==> git_file_branch(content@) == Some(b@),
            r is None ==> git_file_branch(content@) is None,
    {
        let cs = chars_of(content);
        let ls = split_lines(cs.as_slice());
        let ghost lv = ls@.map_values(|l: Vec<char>| l@);
        let prefix = chars_of("gitdir:");
        proof {
            reveal_strlit("gitdir:");
        }
        let mut i: usize = 0;
        while i < ls.len() && !starts_with(ls[i].as_slice(), prefix.as_slice())
            invariant
                i <= ls@.len(),
                lv == ls@.map_values(|l: Vec<char>| l@),
                prefix@ == "gitdir:"@,
                forall|j: int| 0 <= j < i ==> !has_prefix(#[trigger] lv[j], "gitdir:"@),
            decreases ls.len() - i,
        {
            assert(lv[i as int] == ls@[i as int]@);
            i = i + 1;
        }
        if i < ls.len() {
            assert(lv[i as int] == ls@[i as int]@);
        }
        proof {
            lemma_first_with_prefix_is(lv, "gitdir:"@, i as int);
        }
        if i == ls.len() {
            return None;
        }
        let rest = trim_prefix_repeated(ls[i].as_slice(), prefix.as_slice());
        let dir = trim_chars(rest.as_slice());
        let text = string_of(dir.as_slice());
        file_name_of(text.as_str())
    }

    fn branch_of(git_file: &FileEvidence) -> (r: String)
        ensures
            r@ == worktree_branch(*git_file),
    {
        match git_file {
            FileEvidence::Content(s) => match Self::branch_from_git_file(s.as_str()) {
                Some(b) => b,
                None => owned("unknown"),
            },
            _ => owned("unknown"),
        }
    }

    /// The worktrees among the entries of a scan, in order: each directory
    /// with a `.git` file, with the branch that file names (`unknown` when
    /// it cannot be read), `active` when it holds uncommitted changes and
    /// `stale` otherwise.
    pub fn recover_worktrees(&self, entries: &Vec<ScannedEntry>) -> (r: Vec<RecoveryWorktree>)
        ensures
            worktrees_view(r@) == recovered_all(entries@),
    {
        let mut out: Vec<RecoveryWorktree> = Vec::new();
        let mut i: usize = 0;
        while i < entries.len()
            invariant
                i <= entries@.len(),
                worktrees_view(out@) == recovered_all(entries@.subrange(0, i as int)),
            decreases entries.len() - i,
        {
            let e = &entries[i];
            assert(entries@.subrange(0, i + 1).drop_last() =~= entries@.subrange(0, i as int));
            let ghost prev = worktrees_view(out@);
            let qualifies = e.is_dir && match e.git_file {
                FileEvidence::Absent => false,
                _ => true,
            };
            if qualifies {
                let w = RecoveryWorktree {
                    path: copy_string(&e.path),
                    branch: Self::branch_of(&e.git_file),
                    status: if e.has_changes {
                        owned("active")
                    } else {
                        owned("stale")
                    },
                    has_unapplied_changes: e.has_changes,
                    owner_agent_id: None,
                };
                let ghost wv = w@;
                out.push(w);
                assert(worktrees_view(out@) =~= prev.push(wv));
            } else {
                assert(worktrees_view(out@) =~= prev);
            }
            i = i + 1;
        }
        assert(entries@.subrange(0, i as int) =~= entries@);
        out
    }

    /// The directory recovery scans for worktrees.
    pub fn worktrees_root(data_root: &str) -> (r: String)
        ensures
            r@ == worktrees_dir(data_root@),
    {
        join_path(data_root, "worktrees")
    }

    /// The database file of a data root.
    pub fn database_path(data_root: &str) -> (r: String)
        ensures
            r@ == path_join(path_join(data_root@, "data"@), "ginger.sqlite"@),
    {
        let d = join_path(data_root, "data");
        join_path(d.as_str(), "ginger.sqlite")
    }

    /// Where the database is backed up before recovery, for the time stamp
    /// `stamp`.
    pub fn backup_target(data_root: &str, stamp: &str) -> (r: String)
        ensures
            r@ == path_join(
                path_join(data_root@, "backups"@),
                "recovery_"@ + stamp@ + ".sqlite"@,
            ),
    {
        let d = join_path(data_root, "backups");
        let name = concat3("recovery_", stamp, ".sqlite");
        join_path(d.as_str(), name.as_str())
    }

    /// The report of a recovery of `data_root`, given the entries found in
    /// its worktrees directory and the backup of the database that was made,
    /// if any. No sessions are read as crashed and safe mode stays off.
    pub fn recover(&self, data_root: &str, entries: &Vec<ScannedEntry>, backup: Option<String>) -> (r:
        RecoveryReport)
        ensures
            r.crashed_sessions@.len() == 0,
            worktrees_view(r.recovered_worktrees@) == recovered_all(entries@),
            actions_view(r.actions@) == recovery_actions(
                data_root@,
                recovered_all(entries@).len(),
                opt_view(backup),
            ),
            !r.safe_mode,
    {
        let recovered_worktrees = self.recover_worktrees(entries);
        let mut actions: Vec<RecoveryAction> = Vec::new();
        let n = recovered_worktrees.len();
        if n > 0 {
            let count = u64_to_decimal(n as u64);
            actions.push(
                RecoveryAction {
                    action: owned("scan_worktrees"),
                    target: Self::worktrees_root(data_root),
                    result: concat3("Found ", count.as_str(), " worktrees"),
                },
            );
        }
        let ghost first = actions_view(actions@);
        let ghost bv = opt_view(backup);
        match backup {
            Some(b) => {
                actions.push(
                    RecoveryAction {
                        action: owned("backup_db"),
                        target: b,
                        result: owned("Database backed up before recovery"),
                    },
                );
            },
            None => {},
        }
        assert(actions_view(actions@) =~= recovery_actions(
            data_root@,
            recovered_all(entries@).len(),
            bv,
        ));
        RecoveryReport {
            crashed_sessions: Vec::new(),
            recovered_worktrees,
            actions,
            safe_mode: false,
        }
    }
}

/// Recovery never deletes recovered work: the only actions it takes are
/// scanning the worktrees directory and backing up the database.
pub proof fn recovery_only_scans_and_backs_up(
    data_root: Seq<char>,
    found: nat,
    backup: Option<Seq<char>>,
)
    ensures
        forall|i: int|
            0 <= i < recovery_actions(data_root, found, backup).len() ==> {
                let a = #[trigger] recovery_actions(data_root, found, backup)[i];
                a.action == "scan_worktrees"@ || a.action == "backup_db"@
            },
{
}

} // verus!
