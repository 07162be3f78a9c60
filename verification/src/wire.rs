//! Plain values shared by several endpoints: UUIDs and timestamps.

use vstd::prelude::*;

verus! {

/// The UUID that `uuid::Uuid::from_str` reads from `s`, as a 128-bit value.
pub uninterp spec fn uuid_from_str(s: Seq<char>) -> Option<u128>;

/// `s.parse::<uuid::Uuid>()`: the UUID's 128-bit value when `s` is a UUID in
/// one of the formats the crate accepts, `None` otherwise.
#[verifier::external_body]
pub(crate) fn parse_uuid(s: &str) -> (r: Option<u128>)
    ensures
        r == uuid_from_str(s@),
{
    match s.parse::<uuid::Uuid>() {
        Ok(u) => Some(u.as_u128()),
        Err(_) => None,
    }
}

/// A UTC instant: seconds since the Unix epoch and the sub-second
/// nanoseconds.
#[derive(Debug, Clone, Copy, PartialEq, Eq, Structural)]
pub struct Timestamp {
    pub secs: i64,
    pub nanos: u32,
}

/// What `chrono::DateTime::parse_from_rfc3339` gives for `s`: the instant it
/// denotes, taken to UTC, or the text of the parse error.
pub uninterp spec fn rfc3339_parse(s: Seq<char>) -> Result<Timestamp, Seq<char>>;

/// `chrono::DateTime::parse_from_rfc3339(s)`: the instant as UTC seconds and
/// nanoseconds, or the `Display` text of the parse error.
#[verifier::external_body]
pub(crate) fn parse_rfc3339(s: &str) -> (r: Result<Timestamp, String>)
    ensures
        match rfc3339_parse(s@) {
            Ok(t) => r matches Ok(u) && u == t,
            Err(m) => r matches Err(e) && e@ == m,
        },
{
    match chrono::DateTime::parse_from_rfc3339(s) {
        Ok(dt) => Ok(Timestamp { secs: dt.timestamp(), nanos: dt.timestamp_subsec_nanos() }),
        Err(e) => Err(e.to_string()),
    }
}

} // verus!
