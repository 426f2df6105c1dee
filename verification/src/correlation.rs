//! Correlation identifiers that tie together the log lines of one workspace
//! session, agent thread, job, install or verification run.

use crate::clock::now;
use crate::text::{concat, hex, lemma_digits_injective, u64_to_hex};
use vstd::prelude::*;

verus! {

/// The text of the identifier numbered `n`: `corr-` and `n` in lowercase
/// hexadecimal.
pub open spec fn correlation_text(n: u64) -> Seq<char> {
    "corr-"@ + hex(n as nat)
}

/// The number that follows `n` in a sequence of identifiers, wrapping after
/// the largest `u64`.
pub open spec fn following(n: u64) -> u64 {
    if n == u64::MAX {
        0
    } else {
        (n + 1) as u64
    }
}

/// The source of fresh correlation identifiers: a counter that starts at 1.
pub struct CorrelationSequence {
    next: u64,
}

impl CorrelationSequence {
    pub closed spec fn upcoming(&self) -> u64 {
        self.next
    }

    /// A sequence whose first identifier is numbered 1.
    pub fn new() -> (r: Self)
        ensures
            r.upcoming() == 1,
    {
        CorrelationSequence { next: 1 }
    }
}

/// A correlation identifier.
#[derive(Debug, Clone, PartialEq, Eq, Hash)]
pub struct CorrelationId(pub String);

impl CorrelationId {
    /// The next identifier of `seq`; the sequence moves on by one.
    pub fn new(seq: &mut CorrelationSequence) -> (r: Self)
        ensures
            r.0@ == correlation_text(old(seq).upcoming()),
            final(seq).upcoming() == following(old(seq).upcoming()),
    {
        let n = seq.next;
        seq.next = n.wrapping_add(1);
        let digits = u64_to_hex(n);
        proof {
            reveal_strlit("corr-");
        }
        CorrelationId(concat("corr-", digits.as_str()))
    }

    /// The identifier's text.
    pub fn as_str(&self) -> (r: &str)
        ensures
            r@ == self.0@,
    {
        self.0.as_str()
    }

    /// The identifier's text, as `Display` writes it.
    pub fn to_text(&self) -> (r: String)
        ensures
            r@ == self.0@,
    {
        self.0.clone()
    }
}

/// Identifiers of different numbers differ.
pub proof fn distinct_numbers_give_distinct_ids(a: u64, b: u64)
    requires
        a != b,
    ensures
        correlation_text(a) != correlation_text(b),
{
    reveal_strlit("corr-");
    if correlation_text(a) == correlation_text(b) {
        assert(hex(a as nat) =~= correlation_text(a).subrange(5, correlation_text(a).len() as int));
        assert(hex(b as nat) =~= correlation_text(b).subrange(5, correlation_text(b).len() as int));
        lemma_digits_injective(a as nat, b as nat, 16);
    }
}

/// Two identifiers drawn one after the other from a sequence differ.
pub proof fn consecutive_ids_differ(n: u64)
    ensures
        correlation_text(n) != correlation_text(following(n)),
{
    distinct_numbers_give_distinct_ids(n, following(n));
}

/// A log line that carries a correlation identifier.
#[derive(Debug, Clone)]
pub struct CorrelatedLog {
    pub correlation_id: CorrelationId,
    pub level: String,
    pub message: String,
    pub timestamp: u64,
}

pub struct CorrelatedLogger;

impl CorrelatedLogger {
    /// The log line of `message` at `level` for `correlation_id`, stamped
    /// with the current time in seconds.
    pub fn log(correlation_id: &CorrelationId, level: &str, message: &str) -> (r: CorrelatedLog)
        ensures
            r.correlation_id.0@ == correlation_id.0@,
            r.level@ == level@,
            r.message@ == message@,
    {
        CorrelatedLog {
            correlation_id: CorrelationId(correlation_id.0.clone()),
            level: level.to_owned(),
            message: message.to_owned(),
            timestamp: now(),
        }
    }
}

} // verus!
