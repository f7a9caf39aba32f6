//! Timestamps as the server writes them, formatted by `chrono`.

use vstd::prelude::*;

verus! {

/// The text that `chrono` formats the UTC instant `secs` seconds and `nanos`
/// nanoseconds after the Unix epoch into with `pattern`, or `None` when
/// `DateTime::from_timestamp` rejects the instant.
pub uninterp spec fn utc_text(secs: i64, nanos: u32, pattern: Seq<char>) -> Option<Seq<char>>;

/// The patterns the server formats times with: RFC 3339 with milliseconds,
/// the compact signature time, and the signature date.
pub open spec fn known_pattern(p: Seq<char>) -> bool {
    p == "%Y-%m-%dT%H:%M:%S%.3fZ"@ || p == "%Y%m%dT%H%M%SZ"@ || p == "%Y%m%d"@
}

/// A character that these patterns can write: a digit, the sign of a year
/// outside 0 to 9999, or one of the literals `-`, `T`, `:`, `.` and `Z`.
pub open spec fn stamp_char(c: char) -> bool {
    ('0' <= c && c <= '9') || c == '+' || c == '-' || c == 'T' || c == ':' || c == '.' || c == 'Z'
}

/// Text made of [`stamp_char`]s only.
pub open spec fn stamp_text(s: Seq<char>) -> bool {
    forall|i: int| 0 <= i < s.len() ==> stamp_char(#[trigger] s[i])
}

/// `DateTime::<Utc>::from_timestamp(secs, nanos)` formatted with `format`
/// of `chrono`. The patterns allowed hold only valid items, so formatting
/// them does not fail. Their items write digits (`%Y` zero-padded to four,
/// with a `+` or `-` sign for a year outside 0 to 9999; `%m`, `%d`, `%H`,
/// `%M`, `%S` two each; `%.3f` a `.` and three), besides the literal
/// characters of the pattern.
#[verifier::external_body]
fn format_utc(secs: i64, nanos: u32, pattern: &str) -> (r: Option<String>)
    requires
        known_pattern(pattern@),
    ensures
        match r {
            Some(t) => utc_text(secs, nanos, pattern@) == Some(t@),
            None => utc_text(secs, nanos, pattern@) is None,
        },
        r matches Some(t) ==> stamp_text(t@),
{
    match chrono::DateTime::from_timestamp(secs, nanos) {
        Some(t) => Some(t.format(pattern).to_string()),
        None => None,
    }
}

/// A timestamp as stored in records: `2024-05-01T12:30:00.250Z`.
pub fn iso_timestamp(secs: i64, nanos: u32) -> (r: Option<String>)
    ensures
        match r {
            Some(t) => utc_text(secs, nanos, "%Y-%m-%dT%H:%M:%S%.3fZ"@) == Some(t@),
            None => utc_text(secs, nanos, "%Y-%m-%dT%H:%M:%S%.3fZ"@) is None,
        },
        r matches Some(t) ==> stamp_text(t@),
{
    format_utc(secs, nanos, "%Y-%m-%dT%H:%M:%S%.3fZ")
}

/// The time and date of a request signature: `20240501T123000Z` and
/// `20240501`.
pub fn signature_stamps(secs: i64, nanos: u32) -> (r: Option<(String, String)>)
    ensures
        match r {
            Some((t, d)) => utc_text(secs, nanos, "%Y%m%dT%H%M%SZ"@) == Some(t@) && utc_text(
                secs,
                nanos,
                "%Y%m%d"@,
            ) == Some(d@),
            None => utc_text(secs, nanos, "%Y%m%dT%H%M%SZ"@) is None || utc_text(secs, nanos, "%Y%m%d"@) is None,
        },
        r matches Some((t, d)) ==> stamp_text(t@) && stamp_text(d@),
{
    match format_utc(secs, nanos, "%Y%m%dT%H%M%SZ") {
        Some(t) => match format_utc(secs, nanos, "%Y%m%d") {
            Some(d) => Some((t, d)),
            None => None,
        },
        None => None,
    }
}

} // verus!
