//! Resolving the target of a time-travel statement.
use vstd::prelude::*;
use crate::errors::UniError;
use crate::text::{chars_of, push_str, string_from};

verus! {

/// Where a time-travel statement reads.
pub enum TimeTravelSpec {
    /// At the snapshot with this id.
    Version(String),
    /// At the snapshot current at this RFC 3339 timestamp.
    Timestamp(String),
}

/// The resolved target: a snapshot id, or an instant (seconds and
/// nanoseconds since the Unix epoch, UTC) whose snapshot is looked up.
#[derive(Debug, PartialEq, Eq)]
pub enum TravelTarget {
    Snapshot(String),
    AtInstant { secs: i64, nanos: u32 },
}

/// What `chrono::DateTime::parse_from_rfc3339` gives for `s`: the instant in
/// UTC as (seconds, nanoseconds) since the epoch, or the parse error's text.
pub uninterp spec fn rfc3339_instant(s: Seq<char>) -> Result<(i64, u32), Seq<char>>;

/// `chrono::DateTime::parse_from_rfc3339`, converted to UTC: believed to be a
/// function of the text alone (named `rfc3339_instant`); the accepted syntax
/// is not stated.
#[verifier::external_body]
fn parse_rfc3339(s: &str) -> (r: Result<(i64, u32), String>)
    ensures
        match r {
            Ok(t) => rfc3339_instant(s@) == Ok::<(i64, u32), Seq<char>>(t),
            Err(e) => rfc3339_instant(s@) == Err::<(i64, u32), Seq<char>>(e@),
        },
{
    match chrono::DateTime::parse_from_rfc3339(s) {
        Ok(d) => {
            let u = d.with_timezone(&chrono::Utc);
            Ok((u.timestamp(), u.timestamp_subsec_nanos()))
        },
        Err(e) => Err(e.to_string()),
    }
}

/// The message for a timestamp that does not parse.
pub open spec fn invalid_timestamp_message(ts: Seq<char>, error: Seq<char>) -> Seq<char> {
    "Invalid timestamp '"@ + ts + "': "@ + error
}

/// The target of timestamp `ts` given what parsing it gave: the instant, or
/// a parse error naming the timestamp and the parser's text.
pub fn timestamp_target(ts: &str, parsed: Result<(i64, u32), String>) -> (r: Result<TravelTarget, UniError>)
    ensures
        match parsed {
            Ok((secs, nanos)) => r == Ok::<TravelTarget, UniError>(TravelTarget::AtInstant { secs, nanos }),
            Err(e) => r matches Err(UniError::Parse { message, context: None })
                && message@ == invalid_timestamp_message(ts@, e@),
        },
{
    match parsed {
        Ok((secs, nanos)) => Ok(TravelTarget::AtInstant { secs, nanos }),
        Err(e) => {
            let mut v = chars_of("Invalid timestamp '");
            push_str(&mut v, ts);
            push_str(&mut v, "': ");
            push_str(&mut v, e.as_str());
            Err(UniError::Parse { message: string_from(&v), context: None })
        },
    }
}

/// The target of a time-travel statement: a version names its snapshot; a
/// timestamp is parsed as RFC 3339 (see [`timestamp_target`]).
pub fn time_travel_target(spec: TimeTravelSpec) -> (r: Result<TravelTarget, UniError>)
    ensures
        match spec {
            TimeTravelSpec::Version(id) => r == Ok::<TravelTarget, UniError>(TravelTarget::Snapshot(id)),
            TimeTravelSpec::Timestamp(ts) => match rfc3339_instant(ts@) {
                Ok((secs, nanos)) => r == Ok::<TravelTarget, UniError>(TravelTarget::AtInstant { secs, nanos }),
                Err(e) => r matches Err(UniError::Parse { message, context: None })
                    && message@ == invalid_timestamp_message(ts@, e),
            },
        },
{
    match spec {
        TimeTravelSpec::Version(id) => Ok(TravelTarget::Snapshot(id)),
        TimeTravelSpec::Timestamp(ts) => {
            let parsed = parse_rfc3339(ts.as_str());
            timestamp_target(ts.as_str(), parsed)
        },
    }
}

/// The error when no snapshot exists at or before the instant rendered as
/// `at`.
pub fn no_snapshot_error(at: &str) -> (r: UniError)
    ensures
        r matches UniError::Query { message, query: None } && message@ == "No snapshot found at or before "@
            + at@,
{
    let mut v = chars_of("No snapshot found at or before ");
    push_str(&mut v, at);
    UniError::Query { message: string_from(&v), query: None }
}

} // verus!
