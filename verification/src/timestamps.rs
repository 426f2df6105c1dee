//! Rendering of the current time as RFC 3339 text and as the compact stamp
//! used in backup file names.

use crate::clock::now_precise;
use chrono::DateTime;
use vstd::prelude::*;

verus! {

/// The RFC 3339 text chrono writes for the UTC instant `secs` seconds and
/// `nanos` nanoseconds after the Unix epoch, or `None` when chrono cannot
/// represent that instant.
pub uninterp spec fn rfc3339_text(secs: i64, nanos: u32) -> Option<Seq<char>>;

/// The text chrono writes for the UTC instant `secs` seconds and `nanos`
/// nanoseconds after the Unix epoch under the strftime format `fmt`, or
/// `None` when chrono cannot represent that instant.
pub uninterp spec fn formatted_text(secs: i64, nanos: u32, fmt: Seq<char>) -> Option<Seq<char>>;

/// `DateTime::<Utc>::from_timestamp` followed by `DateTime::to_rfc3339`:
/// the instant as text such as `2024-05-01T12:00:00+00:00`, with the
/// fraction of the second when there is one; `None` when the instant lies
/// outside chrono's range. A function of the arguments alone, named by
/// `rfc3339_text`.
#[verifier::external_body]
fn rfc3339_at(secs: i64, nanos: u32) -> (r: Option<String>)
    ensures
        r is Some == rfc3339_text(secs, nanos) is Some,
        r matches Some(s) ==> rfc3339_text(secs, nanos) == Some(s@),
{
    match DateTime::from_timestamp(secs, nanos) {
        Some(t) => Some(t.to_rfc3339()),
        None => None,
    }
}

/// `DateTime::<Utc>::from_timestamp` followed by `DateTime::format` written
/// out with `to_string`; `None` when the instant lies outside chrono's
/// range. Writing panics on an invalid format string, so only the one
/// format the library uses is admitted. A function of the arguments alone,
/// named by `formatted_text`.
#[verifier::external_body]
fn format_at(secs: i64, nanos: u32, fmt: &str) -> (r: Option<String>)
    requires
        fmt@ == "%Y%m%d_%H%M%S"@,
    ensures
        r is Some == formatted_text(secs, nanos, fmt@) is Some,
        r matches Some(s) ==> formatted_text(secs, nanos, fmt@) == Some(s@),
{
    match DateTime::from_timestamp(secs, nanos) {
        Some(t) => Some(t.format(fmt).to_string()),
        None => None,
    }
}

/// The RFC 3339 text of the UTC instant `secs` seconds and `nanos`
/// nanoseconds after the Unix epoch; `None` when `secs` does not fit the
/// signed seconds chrono takes, or when chrono cannot represent the
/// instant.
pub fn rfc3339_of(secs: u64, nanos: u32) -> (r: Option<String>)
    ensures
        secs > i64::MAX ==> r is None,
        secs <= i64::MAX ==> (r is Some <==> rfc3339_text(secs as i64, nanos) is Some),
        r matches Some(s) ==> secs <= i64::MAX && rfc3339_text(secs as i64, nanos) == Some(s@),
{
    if secs > 9223372036854775807u64 {
        return None;
    }
    rfc3339_at(secs as i64, nanos)
}

/// The text of the UTC instant `secs` seconds and `nanos` nanoseconds after
/// the Unix epoch as `YYYYMMDD_HHMMSS`; `None` when `secs` does not fit the
/// signed seconds chrono takes, or when chrono cannot represent the
/// instant.
pub fn compact_stamp_of(secs: u64, nanos: u32) -> (r: Option<String>)
    ensures
        secs > i64::MAX ==> r is None,
        secs <= i64::MAX ==> (r is Some <==> formatted_text(secs as i64, nanos, "%Y%m%d_%H%M%S"@)
            is Some),
        r matches Some(s) ==> secs <= i64::MAX && formatted_text(
            secs as i64,
            nanos,
            "%Y%m%d_%H%M%S"@,
        ) == Some(s@),
{
    if secs > 9223372036854775807u64 {
        return None;
    }
    proof {
        reveal_strlit("%Y%m%d_%H%M%S");
    }
    format_at(secs as i64, nanos, "%Y%m%d_%H%M%S")
}

/// The current time in RFC 3339 form. Which instant is read depends on the
/// clock: the text is the rendering of some instant at or after the Unix
/// epoch, and `None` comes only for an instant that cannot be rendered
/// (see `rfc3339_of`).
pub fn now_rfc3339() -> (r: Option<String>)
    ensures
        r matches Some(s) ==> exists|secs: i64, nanos: u32|
            0 <= secs && nanos < 1_000_000_000 && #[trigger] rfc3339_text(secs, nanos) == Some(s@),
        r is None ==> exists|secs: u64, nanos: u32|
            #![trigger rfc3339_text(secs as i64, nanos)]
            nanos < 1_000_000_000 && (secs > i64::MAX || rfc3339_text(secs as i64, nanos) is None),
{
    let (secs, nanos) = now_precise();
    let r = rfc3339_of(secs, nanos);
    proof {
        if r is None {
            assert(nanos < 1_000_000_000 && (secs > i64::MAX || rfc3339_text(secs as i64, nanos)
                is None));
        } else {
            assert(0 <= secs as i64 && rfc3339_text(secs as i64, nanos) == Some(r->0@));
        }
    }
    r
}

/// The current UTC time as `YYYYMMDD_HHMMSS`. Which instant is read depends
/// on the clock: the text is the rendering of some instant at or after the
/// Unix epoch under that format, and `None` comes only for an instant that
/// cannot be rendered (see `compact_stamp_of`).
pub fn now_compact_stamp() -> (r: Option<String>)
    ensures
        r matches Some(s) ==> exists|secs: i64, nanos: u32|
            0 <= secs && nanos < 1_000_000_000 && #[trigger] formatted_text(
                secs,
                nanos,
                "%Y%m%d_%H%M%S"@,
            ) == Some(s@),
        r is None ==> exists|secs: u64, nanos: u32|
            #![trigger formatted_text(secs as i64, nanos, "%Y%m%d_%H%M%S"@)]
            nanos < 1_000_000_000 && (secs > i64::MAX || formatted_text(
                secs as i64,
                nanos,
                "%Y%m%d_%H%M%S"@,
            ) is None),
{
    let (secs, nanos) = now_precise();
    let r = compact_stamp_of(secs, nanos);
    proof {
        if r is None {
            assert(nanos < 1_000_000_000 && (secs > i64::MAX || formatted_text(
                secs as i64,
                nanos,
                "%Y%m%d_%H%M%S"@,
            ) is None));
        } else {
            assert(0 <= secs as i64 && formatted_text(secs as i64, nanos, "%Y%m%d_%H%M%S"@) == Some(
                r->0@,
            ));
        }
    }
    r
}

} // verus!
