//! Dates as text.

use vstd::prelude::*;
use crate::text;

verus! {

/// How long ago `then` was; nothing for a later time.
pub open spec fn age(now: u64, then: u64) -> int {
    if then <= now {
        now - then
    } else {
        0
    }
}

/// How long ago `then` was; nothing for a later time.
pub fn elapsed(now: u64, then: u64) -> (r: u64)
    ensures
        r == age(now, then),
{
    if then <= now {
        now - then
    } else {
        0
    }
}

/// The Unix time of a date in the form of RFC 3339, where it is one.
pub uninterp spec fn rfc3339_secs(date: Seq<char>) -> Option<i64>;

/// `chrono::DateTime::parse_from_rfc3339` and the `timestamp` of what it gives: the Unix seconds
/// of a date in the form of RFC 3339, or nothing where the text is none. The result depends on
/// the text alone.
#[verifier::external_body]
pub(crate) fn parse_rfc3339(date: &str) -> (r: Option<i64>)
    ensures
        r == rfc3339_secs(date@),
{
    chrono::DateTime::parse_from_rfc3339(date).ok().map(|t| t.timestamp())
}

/// A Unix time in UTC, written in a format.
pub uninterp spec fn utc_text(ts: i64, format: Seq<char>) -> Option<Seq<char>>;

/// Whether a format is one that this library writes dates in.
pub open spec fn known_format(format: Seq<char>) -> bool {
    ||| format == "%Y-%m-%d %H:%M UTC"@
    ||| format == "%Y-%m-%d %H:%M:%S UTC"@
    ||| format == "%Y-%m-%d %H:%M:%S"@
    ||| format == "%b %Y"@
}

/// `chrono::DateTime::from_timestamp` of a Unix time, written by `chrono::DateTime::format`:
/// nothing where the time is out of range. The result depends on the time and the format alone.
/// A format that chrono does not know would make it panic, so only known ones are admitted.
#[verifier::external_body]
pub(crate) fn format_utc(ts: i64, format: &str) -> (r: Option<String>)
    requires
        known_format(format@),
    ensures
        text::opt_view(r) == utc_text(ts, format@),
{
    chrono::DateTime::from_timestamp(ts, 0).map(|t| t.format(format).to_string())
}

/// A Unix time in a named time zone, written in a format.
pub uninterp spec fn zone_text(ts: i64, zone: Seq<char>, format: Seq<char>) -> Option<Seq<char>>;

/// The `FromStr` of `chrono_tz::Tz`, `chrono::DateTime::with_timezone` and `format`: a Unix time
/// in the zone of that name, or nothing where no zone has it or the time is out of range. The
/// zones' rules are part of the crate, so the result depends on the arguments alone. Only formats
/// that chrono knows are admitted.
#[verifier::external_body]
pub(crate) fn format_in_zone(ts: i64, zone: &str, format: &str) -> (r: Option<String>)
    requires
        known_format(format@),
    ensures
        text::opt_view(r) == zone_text(ts, zone@, format@),
{
    let tz = zone.parse::<chrono_tz::Tz>().ok()?;
    let time = chrono::DateTime::from_timestamp(ts, 0)?;
    Some(time.with_timezone(&tz).format(format).to_string())
}

} // verus!
