//! Review sessions: a session stores the agent thread, base and target
//! revisions, the diff fingerprint, the accepted and rejected hunks and a
//! status. It is never applied against a changed fingerprint.

use vstd::prelude::*;
use crate::text::{copy_string, owned, strings_view};

verus! {

/// Identifier of a review session.
#[derive(Debug, Clone, Copy, PartialEq, Eq, Hash, Structural)]
pub struct ReviewSessionId(pub i64);

impl ReviewSessionId {
    pub fn new(n: i64) -> (r: Self)
        ensures
            r.0 == n,
    {
        ReviewSessionId(n)
    }
}

/// Status of a review session.
#[derive(Debug, Clone, Copy, PartialEq, Eq, Structural)]
pub enum ReviewStatus {
    Pending,
    Open,
    Reviewing,
    Applying,
    Applied,
    Rejected,
}

/// A review session.
#[derive(Debug, Clone)]
pub struct ReviewSession {
    pub id: ReviewSessionId,
    pub agent_id: i64,
    pub base_revision: String,
    pub target_revision: String,
    pub diff_fingerprint: String,
    pub status: ReviewStatus,
    pub accepted_hunks: Vec<String>,
    pub rejected_hunks: Vec<String>,
}

pub struct ReviewSessionView {
    pub id: int,
    pub agent_id: int,
    pub base_revision: Seq<char>,
    pub target_revision: Seq<char>,
    pub diff_fingerprint: Seq<char>,
    pub status: ReviewStatus,
    pub accepted_hunks: Seq<Seq<char>>,
    pub rejected_hunks: Seq<Seq<char>>,
}

impl View for ReviewSession {
    type V = ReviewSessionView;

    open spec fn view(&self) -> ReviewSessionView {
        ReviewSessionView {
            id: self.id.0 as int,
            agent_id: self.agent_id as int,
            base_revision: self.base_revision@,
            target_revision: self.target_revision@,
            diff_fingerprint: self.diff_fingerprint@,
            status: self.status,
            accepted_hunks: strings_view(self.accepted_hunks@),
            rejected_hunks: strings_view(self.rejected_hunks@),
        }
    }
}

impl ReviewSession {
    fn duplicate(&self) -> (r: Self)
        ensures
            r@ == self@,
    {
        ReviewSession {
            id: self.id,
            agent_id: self.agent_id,
            base_revision: copy_string(&self.base_revision),
            target_revision: copy_string(&self.target_revision),
            diff_fingerprint: copy_string(&self.diff_fingerprint),
            status: self.status,
            accepted_hunks: crate::text::copy_strings(&self.accepted_hunks),
            rejected_hunks: crate::text::copy_strings(&self.rejected_hunks),
        }
    }
}

pub open spec fn sessions_view(s: Seq<ReviewSession>) -> Seq<ReviewSessionView> {
    s.map_values(|x: ReviewSession| x@)
}

/// `hunks` with `h` added at the end unless already present.
pub open spec fn add_once(hunks: Seq<Seq<char>>, h: Seq<char>) -> Seq<Seq<char>> {
    if hunks.contains(h) {
        hunks
    } else {
        hunks.push(h)
    }
}

/// A session with hunk `h` accepted.
pub open spec fn with_accepted(s: ReviewSessionView, h: Seq<char>) -> ReviewSessionView {
    ReviewSessionView { accepted_hunks: add_once(s.accepted_hunks, h), ..s }
}

/// A session with hunk `h` rejected.
pub open spec fn with_rejected(s: ReviewSessionView, h: Seq<char>) -> ReviewSessionView {
    ReviewSessionView { rejected_hunks: add_once(s.rejected_hunks, h), ..s }
}

/// A session in status `status`.
pub open spec fn with_status(s: ReviewSessionView, status: ReviewStatus) -> ReviewSessionView {
    ReviewSessionView { status, ..s }
}

/// The sessions after applying `f` to session `id`, when it exists.
pub open spec fn update_session(
    s: Seq<ReviewSessionView>,
    id: int,
    f: spec_fn(ReviewSessionView) -> ReviewSessionView,
) -> Seq<ReviewSessionView> {
    if 1 <= id <= s.len() {
        s.update(id - 1, f(s[id - 1]))
    } else {
        s
    }
}

/// The `n`-th created session has identifier `n`: the session at position
/// `j` has identifier `j + 1`.
pub open spec fn session_ids_in_order(s: Seq<ReviewSessionView>) -> bool {
    forall|j: int| 0 <= j < s.len() ==> #[trigger] s[j].id == j + 1
}

/// Whether session `id` of `s` exists and was opened for diff `x`.
pub open spec fn fingerprint_match(s: Seq<ReviewSessionView>, id: int, x: Seq<char>) -> bool {
    1 <= id <= s.len() && s[id - 1].diff_fingerprint == x
}

/// The review sessions. The `n`-th created session has identifier `n`.
pub struct ReviewStore {
    sessions: Vec<ReviewSession>,
    next_id: i64,
}

impl ReviewStore {
    #[verifier::type_invariant]
    spec fn numbered(self) -> bool {
        &&& self.next_id == self.sessions@.len() + 1
        &&& forall|j: int| 0 <= j < self.sessions@.len() ==> #[trigger] self.sessions@[j].id.0 == j + 1
    }

    /// The sessions, in creation order.
    pub closed spec fn entries(self) -> Seq<ReviewSessionView> {
        sessions_view(self.sessions@)
    }

    pub fn new() -> (r: Self)
        ensures
            r.entries() == Seq::<ReviewSessionView>::empty(),
            session_ids_in_order(r.entries()),
    {
        let r = ReviewStore { sessions: Vec::new(), next_id: 1 };
        assert(r.entries() =~= Seq::<ReviewSessionView>::empty());
        r
    }

    /// Opens a session and returns its identifier, one more than the number
    /// of earlier sessions; the counter is 64-bit and does not wrap.
    pub fn create(&mut self, agent_id: i64, base: &str, target: &str, fingerprint: &str) -> (r:
        ReviewSessionId)
        requires
            old(self).entries().len() + 2 <= i64::MAX,
        ensures
            r.0 == old(self).entries().len() + 1,
            session_ids_in_order(final(self).entries()),
            final(self).entries() == old(self).entries().push(
                ReviewSessionView {
                    id: r.0 as int,
                    agent_id: agent_id as int,
                    base_revision: base@,
                    target_revision: target@,
                    diff_fingerprint: fingerprint@,
                    status: ReviewStatus::Open,
                    accepted_hunks: seq![],
                    rejected_hunks: seq![],
                },
            ),
    {
        proof {
            use_type_invariant(&*self);
        }
        let ghost before = self.entries();
        let mut taken = ReviewStore::new();
        std::mem::swap(&mut taken, self);
        let ReviewStore { mut sessions, next_id } = taken;
        let id = ReviewSessionId::new(next_id);
        let session = ReviewSession {
            id,
            agent_id,
            base_revision: owned(base),
            target_revision: owned(target),
            diff_fingerprint: owned(fingerprint),
            status: ReviewStatus::Open,
            accepted_hunks: Vec::new(),
            rejected_hunks: Vec::new(),
        };
        let ghost sv = session@;
        assert(sv.accepted_hunks =~= Seq::<Seq<char>>::empty());
        assert(sv.rejected_hunks =~= Seq::<Seq<char>>::empty());
        sessions.push(session);
        *self = ReviewStore { sessions, next_id: next_id + 1 };
        assert(self.entries() =~= before.push(sv));
        proof {
            use_type_invariant(&*self);
        }
        id
    }

    fn replace(&mut self, k: usize, session: ReviewSession)
        requires
            k < old(self).sessions@.len(),
            session.id == old(self).sessions@[k as int].id,
        ensures
            final(self).entries() == old(self).entries().update(k as int, session@),
    {
        proof {
            use_type_invariant(&*self);
        }
        let ghost before = self.entries();
        let ghost sv = session@;
        let mut taken = ReviewStore::new();
        std::mem::swap(&mut taken, self);
        let ReviewStore { mut sessions, next_id } = taken;
        sessions.set(k, session);
        *self = ReviewStore { sessions, next_id };
        assert(self.entries() =~= before.update(k as int, sv));
    }

    fn index_of(&self, id: ReviewSessionId) -> (r: Option<usize>)
        ensures
            r matches Some(k) ==> 1 <= id.0 <= self.entries().len() && k == id.0 - 1 && k
                < self.sessions@.len() && self.sessions@[k as int].id == id,
            r is None ==> !(1 <= id.0 <= self.entries().len()),
    {
        proof {
            use_type_invariant(self);
        }
        let n = self.sessions.len();
        if id.0 >= 1 && id.0 < self.next_id {
            assert(id.0 - 1 < n);
            assert(self.sessions@[id.0 - 1].id.0 == id.0);
            Some((id.0 - 1) as usize)
        } else {
            None
        }
    }

    /// Accepts hunk `hunk_id` in session `id`; a hunk already accepted is
    /// not added again.
    pub fn accept_hunk(&mut self, id: ReviewSessionId, hunk_id: &str)
        ensures
            session_ids_in_order(final(self).entries()),
            final(self).entries() == update_session(
                old(self).entries(),
                id.0 as int,
                |s: ReviewSessionView| with_accepted(s, hunk_id@),
            ),
    {
        if let Some(k) = self.index_of(id) {
            let mut s = self.sessions[k].duplicate();
            let added = add_hunk(&mut s.accepted_hunks, hunk_id);
            self.replace(k, s);
        }
        proof {
            use_type_invariant(&*self);
        }
    }

    /// Rejects hunk `hunk_id` in session `id`; a hunk already rejected is
    /// not added again.
    pub fn reject_hunk(&mut self, id: ReviewSessionId, hunk_id: &str)
        ensures
            session_ids_in_order(final(self).entries()),
            final(self).entries() == update_session(
                old(self).entries(),
                id.0 as int,
                |s: ReviewSessionView| with_rejected(s, hunk_id@),
            ),
    {
        if let Some(k) = self.index_of(id) {
            let mut s = self.sessions[k].duplicate();
            let added = add_hunk(&mut s.rejected_hunks, hunk_id);
            self.replace(k, s);
        }
        proof {
            use_type_invariant(&*self);
        }
    }

    /// Sets the status of session `id`.
    pub fn set_status(&mut self, id: ReviewSessionId, status: ReviewStatus)
        ensures
            session_ids_in_order(final(self).entries()),
            final(self).entries() == update_session(
                old(self).entries(),
                id.0 as int,
                |s: ReviewSessionView| with_status(s, status),
            ),
    {
        if let Some(k) = self.index_of(id) {
            let mut s = self.sessions[k].duplicate();
            s.status = status;
            self.replace(k, s);
        }
        proof {
            use_type_invariant(&*self);
        }
    }

    /// The session `id`, if any.
    pub fn get(&self, id: ReviewSessionId) -> (r: Option<ReviewSession>)
        ensures
            r matches Some(s) ==> 1 <= id.0 <= self.entries().len() && s@ == self.entries()[id.0
                - 1],
            r is None ==> !(1 <= id.0 <= self.entries().len()),
            session_ids_in_order(self.entries()),
    {
        proof {
            use_type_invariant(self);
        }
        match self.index_of(id) {
            Some(k) => Some(self.sessions[k].duplicate()),
            None => None,
        }
    }

    /// Whether session `id` exists and was opened for diff `fingerprint`;
    /// a stale or unknown session does not match.
    pub fn fingerprint_matches(&self, id: ReviewSessionId, fingerprint: &str) -> (r: bool)
        ensures
            r == fingerprint_match(self.entries(), id.0 as int, fingerprint@),
            session_ids_in_order(self.entries()),
    {
        proof {
            use_type_invariant(self);
        }
        match self.index_of(id) {
            Some(k) => {
                let f = owned(fingerprint);
                self.sessions[k].diff_fingerprint == f
            },
            None => false,
        }
    }
}

/// Adds `h` to `hunks` unless present; returns whether it was added.
fn add_hunk(hunks: &mut Vec<String>, h: &str) -> (r: bool)
    ensures
        strings_view(final(hunks)@) == add_once(strings_view(old(hunks)@), h@),
        r == !strings_view(old(hunks)@).contains(h@),
{
    let target = owned(h);
    let ghost hv = strings_view(hunks@);
    let mut i: usize = 0;
    while i < hunks.len()
        invariant
            i <= hunks@.len(),
            target@ == h@,
            hv == strings_view(hunks@),
            forall|j: int| 0 <= j < i ==> hv[j] != h@,
        decreases hunks.len() - i,
    {
        assert(hv[i as int] == hunks@[i as int]@);
        if hunks[i] == target {
            assert(hv.contains(h@));
            return false;
        }
        i = i + 1;
    }
    hunks.push(target);
    assert(strings_view(hunks@) =~= hv.push(h@));
    true
}

/// Accepting a hunk is idempotent: accepting it a second time changes
/// nothing.
pub proof fn accept_is_idempotent(hunks: Seq<Seq<char>>, h: Seq<char>)
    ensures
        add_once(add_once(hunks, h), h) == add_once(hunks, h),
{
    if !hunks.contains(h) {
        assert(hunks.push(h)[hunks.len() as int] == h);
    }
}

/// Accepted hunks never hold duplicates when built by accepting.
pub proof fn accept_keeps_distinct(hunks: Seq<Seq<char>>, h: Seq<char>)
    requires
        hunks.no_duplicates(),
    ensures
        add_once(hunks, h).no_duplicates(),
{
}

/// A session is never applied against a changed diff: its fingerprint is
/// fixed when it is opened, and accepting or rejecting hunks or changing
/// its status leaves every session's fingerprint as it was.
pub proof fn fingerprints_never_change(
    s: Seq<ReviewSessionView>,
    id: int,
    h: Seq<char>,
    status: ReviewStatus,
)
    ensures
        update_session(s, id, |x: ReviewSessionView| with_accepted(x, h)).len() == s.len(),
        update_session(s, id, |x: ReviewSessionView| with_rejected(x, h)).len() == s.len(),
        update_session(s, id, |x: ReviewSessionView| with_status(x, status)).len() == s.len(),
        forall|j: int|
            0 <= j < s.len() ==> {
                &&& (#[trigger] s[j]).diff_fingerprint == update_session(
                    s,
                    id,
                    |x: ReviewSessionView| with_accepted(x, h),
                )[j].diff_fingerprint
                &&& s[j].diff_fingerprint == update_session(
                    s,
                    id,
                    |x: ReviewSessionView| with_rejected(x, h),
                )[j].diff_fingerprint
                &&& s[j].diff_fingerprint == update_session(
                    s,
                    id,
                    |x: ReviewSessionView| with_status(x, status),
                )[j].diff_fingerprint
            },
{
}

/// A later call on a review store: accepting or rejecting a hunk of a
/// session, or setting its status.
pub enum ReviewStep {
    Accept(int, Seq<char>),
    Reject(int, Seq<char>),
    Status(int, ReviewStatus),
}

/// The sessions after one later call.
pub open spec fn apply_step(s: Seq<ReviewSessionView>, step: ReviewStep) -> Seq<ReviewSessionView> {
    match step {
        ReviewStep::Accept(id, h) => update_session(s, id, |x: ReviewSessionView| with_accepted(x, h)),
        ReviewStep::Reject(id, h) => update_session(s, id, |x: ReviewSessionView| with_rejected(x, h)),
        ReviewStep::Status(id, st) => update_session(
            s,
            id,
            |x: ReviewSessionView| with_status(x, st),
        ),
    }
}

/// The sessions after a sequence of later calls, in order.
pub open spec fn apply_steps(s: Seq<ReviewSessionView>, steps: Seq<ReviewStep>) -> Seq<
    ReviewSessionView,
>
    decreases steps.len(),
{
    if steps.len() == 0 {
        s
    } else {
        apply_step(apply_steps(s, steps.drop_last()), steps.last())
    }
}

/// Whatever accept, reject and status calls follow, every session keeps
/// the fingerprint it was opened with, so `fingerprint_matches` on a
/// created session answers whether the fingerprint is the one given to
/// `create`, and an unknown session never matches.
pub proof fn fingerprint_survives_later_steps(s: Seq<ReviewSessionView>, steps: Seq<ReviewStep>)
    ensures
        apply_steps(s, steps).len() == s.len(),
        forall|j: int|
            0 <= j < s.len() ==> #[trigger] apply_steps(s, steps)[j].diff_fingerprint
                == s[j].diff_fingerprint,
    decreases steps.len(),
{
    if steps.len() > 0 {
        let prev = apply_steps(s, steps.drop_last());
        fingerprint_survives_later_steps(s, steps.drop_last());
        match steps.last() {
            ReviewStep::Accept(id, h) => {
                fingerprints_never_change(prev, id, h, ReviewStatus::Open);
            },
            ReviewStep::Reject(id, h) => {
                fingerprints_never_change(prev, id, h, ReviewStatus::Open);
            },
            ReviewStep::Status(id, st) => {
                fingerprints_never_change(prev, id, seq![], st);
            },
        }
        assert forall|j: int| 0 <= j < s.len() implies #[trigger] apply_steps(s, steps)[j].diff_fingerprint
            == s[j].diff_fingerprint by {
            assert(prev[j].diff_fingerprint == s[j].diff_fingerprint);
        }
    }
}

/// After `create` opened session `v` (the store then holding `s` and `v`,
/// so `v`'s identifier is one more than the number of earlier sessions) and
/// any later accept, reject and status calls, the session matches a
/// fingerprint exactly when it is the one given to `create`, the number of
/// sessions is unchanged, and no identifier outside the created ones
/// matches anything.
pub proof fn fingerprint_matches_after_create(
    s: Seq<ReviewSessionView>,
    v: ReviewSessionView,
    steps: Seq<ReviewStep>,
    x: Seq<char>,
)
    ensures
        apply_steps(s.push(v), steps).len() == s.len() + 1,
        fingerprint_match(apply_steps(s.push(v), steps), s.len() + 1int, x) == (x == v.diff_fingerprint),
        forall|id: int|
            !(1 <= id <= s.len() + 1) ==> !#[trigger] fingerprint_match(
                apply_steps(s.push(v), steps),
                id,
                x,
            ),
{
    fingerprint_survives_later_steps(s.push(v), steps);
    assert(s.push(v)[s.len() as int] == v);
}

} // verus!
