//! Percent-decoding, MIME type guessing and RFC 3339 time parsing, computed by
//! the `percent-encoding`, `mime_guess` and `chrono` crates.

use vstd::prelude::*;

verus! {

/// `percent_decode_str(s).decode_utf8_lossy()`: every `%` followed by two hex
/// digits replaced by the byte they denote, then the bytes read as UTF-8 with
/// invalid sequences replaced by U+FFFD.
pub uninterp spec fn percent_decode_lossy(s: Seq<char>) -> Seq<char>;

/// The first MIME type that `mime_guess::from_path` lists for the extension of
/// the path `key`, if it knows one.
pub uninterp spec fn mime_first_raw(key: Seq<char>) -> Option<Seq<char>>;

/// The instant that an RFC 3339 timestamp denotes, as seconds since the Unix
/// epoch and nanoseconds within that second, or `None` when
/// `DateTime::parse_from_rfc3339` rejects the text.
pub uninterp spec fn rfc3339_instant(s: Seq<char>) -> Option<(i64, u32)>;

/// `percent_encoding::percent_decode_str(s).decode_utf8_lossy()`.
#[verifier::external_body]
pub(crate) fn url_decode(s: &str) -> (r: String)
    ensures
        r@ == percent_decode_lossy(s@),
{
    percent_encoding::percent_decode_str(s).decode_utf8_lossy().to_string()
}

/// `mime_guess::from_path(key).first_raw()`.
#[verifier::external_body]
fn mime_guess_first(key: &str) -> (r: Option<String>)
    ensures
        match r {
            Some(m) => mime_first_raw(key@) == Some(m@),
            None => mime_first_raw(key@) is None,
        },
{
    match mime_guess::from_path(key).first_raw() {
        Some(m) => Some(m.to_string()),
        None => None,
    }
}

/// The content type that the extension of `key` suggests, or
/// `application/octet-stream`.
pub fn guess_content_type(key: &str) -> (r: String)
    ensures
        r@ == match mime_first_raw(key@) {
            Some(m) => m,
            None => "application/octet-stream"@,
        },
{
    match mime_guess_first(key) {
        Some(m) => m,
        None => crate::text::copy_str("application/octet-stream"),
    }
}

/// `chrono::DateTime::parse_from_rfc3339(s)`, read as `(timestamp(),
/// timestamp_subsec_nanos())`.
#[verifier::external_body]
pub(crate) fn parse_rfc3339(s: &str) -> (r: Option<(i64, u32)>)
    ensures
        r == rfc3339_instant(s@),
{
    match chrono::DateTime::parse_from_rfc3339(s) {
        Ok(t) => Some((t.timestamp(), t.timestamp_subsec_nanos())),
        Err(_) => None,
    }
}

} // verus!
