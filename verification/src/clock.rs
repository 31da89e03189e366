//! Instants read by the `time` crate: RFC 3339 timestamps and the clock.
use vstd::prelude::*;

verus! {

/// The largest distance from the Unix epoch, in nanoseconds, of an instant
/// that `time` represents: its dates run from year -9999 to year 9999, which
/// lie within 4 * 10^20 nanoseconds of 1970.
pub const INSTANT_BOUND: i128 = 400_000_000_000_000_000_000;

/// What `time::OffsetDateTime::parse(text, &Rfc3339)` gives for `text`, as
/// nanoseconds since the Unix epoch, or `None` when it rejects the text.
pub uninterp spec fn rfc3339_nanos(text: Seq<char>) -> Option<int>;

/// Parses `text` as an RFC 3339 timestamp with `time` and returns the
/// instant in nanoseconds since the Unix epoch. The contract claims that the
/// result is the crate's reading of `text`, within the range of instants the
/// crate represents.
#[verifier::external_body]
pub fn parse_rfc3339(text: &str) -> (r: Option<i128>)
    ensures
        r matches Some(n) ==> -INSTANT_BOUND <= n <= INSTANT_BOUND,
        match r {
            Some(n) => rfc3339_nanos(text@) == Some(n as int),
            None => rfc3339_nanos(text@) is None,
        },
{
    match time::OffsetDateTime::parse(text, &time::format_description::well_known::Rfc3339) {
        Ok(t) => Some(t.unix_timestamp_nanos()),
        Err(_) => None,
    }
}

/// The current time (`time::OffsetDateTime::now_utc`) in nanoseconds since the
/// Unix epoch. Nothing is claimed of it but that it lies within the range of
/// instants the crate represents.
#[verifier::external_body]
pub fn now_nanos() -> (r: i128)
    ensures
        -INSTANT_BOUND <= r <= INSTANT_BOUND,
{
    time::OffsetDateTime::now_utc().unix_timestamp_nanos()
}

} // verus!
