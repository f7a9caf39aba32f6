//! The S3 request rules that the handlers apply: object keys in paths, byte
//! ranges, copy sources, part numbers, listing parameters and user metadata.

use vstd::prelude::*;
use crate::text::{chars_of, string_from_chars, copy_str, push_str, push_decimal, dec_digits, parse_unsigned, parse_signed, parse_usize, parse_i32};
use crate::scan::{has_prefix, first_match, starts_with_chars, find_from, slice_chars, str_eq};
use crate::codec::{percent_decode_lossy, url_decode};
use crate::strmap::StrMap;
use crate::error::S3Error;

verus! {

/// `s` without one leading `c`, as `strip_prefix(c).unwrap_or(s)` gives it.
pub open spec fn strip_char(s: Seq<char>, c: char) -> Seq<char> {
    if s.len() > 0 && s[0] == c {
        s.drop_first()
    } else {
        s
    }
}

fn strip_char_exec(s: &str, c: char) -> (r: Vec<char>)
    ensures
        r@ == strip_char(s@, c),
{
    let v = chars_of(s);
    if v.len() > 0 && v[0] == c {
        let r = slice_chars(&v, 1, v.len());
        assert(r@ =~= v@.drop_first());
        r
    } else {
        v
    }
}

/// The object key named by the path wildcard: one leading `/` removed, then
/// percent-decoded.
pub open spec fn spec_normalize_key(key: Seq<char>) -> Seq<char> {
    percent_decode_lossy(strip_char(key, '/'))
}

/// The object key named by the path wildcard.
pub fn normalize_key(key: &str) -> (r: String)
    ensures
        r@ == spec_normalize_key(key@),
{
    let k = strip_char_exec(key, '/');
    let s = string_from_chars(&k);
    url_decode(s.as_str())
}

// ---------------------------------------------------------------------------
// Byte ranges

/// The inclusive byte range that a `Range` header selects in an object of
/// `total` bytes: `bytes=a-b`, `bytes=a-` (to the end, `a` inside the object)
/// or `bytes=-n` (the last `n` bytes); the end is clamped to the last byte.
/// An empty object has no byte to select.
pub open spec fn spec_parse_range(header: Seq<char>, total: u64) -> Option<(u64, u64)> {
    if total == 0 || !has_prefix(header, "bytes="@) {
        None
    } else {
        let range = header.skip(6);
        match first_match(range, "-"@, 0) {
            None => None,
            Some(i) => {
                let start_str = range.take(i);
                let end_str = range.skip(i + 1);
                if start_str.len() == 0 {
                    match parse_unsigned(end_str, u64::MAX as nat) {
                        None => None,
                        Some(n) => Some(
                            (
                                (if n <= total {
                                    total - n
                                } else {
                                    0
                                }) as u64,
                                (total - 1) as u64,
                            ),
                        ),
                    }
                } else if end_str.len() == 0 {
                    match parse_unsigned(start_str, u64::MAX as nat) {
                        None => None,
                        Some(s) => if s >= total {
                            None
                        } else {
                            Some((s as u64, (total - 1) as u64))
                        },
                    }
                } else {
                    match parse_unsigned(start_str, u64::MAX as nat) {
                        None => None,
                        Some(s) => match parse_unsigned(end_str, u64::MAX as nat) {
                            None => None,
                            Some(e) => {
                                let e2 = if e <= (total - 1) {
                                    e as int
                                } else {
                                    (total - 1)
                                };
                                if s > e2 {
                                    None
                                } else {
                                    Some((s as u64, e2 as u64))
                                }
                            },
                        },
                    }
                }
            },
        }
    }
}

/// The byte range a `Range` header selects. The range ends inside the
/// object and starts at most one past its end (only `bytes=-0` gives the
/// empty range starting past the end); an empty object gives none.
pub fn parse_range(header: &str, total: u64) -> (r: Option<(u64, u64)>)
    ensures
        r == spec_parse_range(header@, total),
        r matches Some((s, e)) ==> s <= e + 1 && e < total,
        total == 0 ==> r is None,
{
    proof {
        reveal_strlit("bytes=");
        reveal_strlit("-");
    }
    if total == 0 {
        return None;
    }
    let h = chars_of(header);
    let pre = chars_of("bytes=");
    if !starts_with_chars(&h, &pre) {
        return None;
    }
    let range = slice_chars(&h, 6, h.len());
    assert(range@ =~= header@.skip(6));
    let dash = chars_of("-");
    let i = match find_from(&range, &dash, 0) {
        None => {
            return None;
        },
        Some(i) => i,
    };
    let start_str = slice_chars(&range, 0, i);
    let end_str = slice_chars(&range, i + 1, range.len());
    assert(start_str@ =~= range@.take(i as int));
    assert(end_str@ =~= range@.skip(i + 1));
    let last: u64 = total - 1;
    if start_str.len() == 0 {
        match crate::text::parse_unsigned_chars(&end_str, u64::MAX) {
            None => None,
            Some(n) => Some((total.saturating_sub(n), last)),
        }
    } else if end_str.len() == 0 {
        match crate::text::parse_unsigned_chars(&start_str, u64::MAX) {
            None => None,
            Some(s) => {
                if s >= total {
                    None
                } else {
                    Some((s, last))
                }
            },
        }
    } else {
        match crate::text::parse_unsigned_chars(&start_str, u64::MAX) {
            None => None,
            Some(s) => match crate::text::parse_unsigned_chars(&end_str, u64::MAX) {
                None => None,
                Some(e) => {
                    let e2 = if e <= last {
                        e
                    } else {
                        last
                    };
                    if s > e2 {
                        None
                    } else {
                        Some((s, e2))
                    }
                },
            },
        }
    }
}

/// The `Content-Range` value of a partial response.
pub open spec fn spec_content_range(start: u64, end: u64, total: u64) -> Seq<char> {
    "bytes "@ + dec_digits(start as nat) + "-"@ + dec_digits(end as nat) + "/"@ + dec_digits(
        total as nat,
    )
}

/// The `Content-Range` value of a partial response.
pub fn content_range(start: u64, end: u64, total: u64) -> (r: String)
    ensures
        r@ == spec_content_range(start, end, total),
{
    let mut r = copy_str("bytes ");
    push_decimal(&mut r, start);
    push_str(&mut r, "-");
    push_decimal(&mut r, end);
    push_str(&mut r, "/");
    push_decimal(&mut r, total);
    r
}

/// An ETag as it appears in headers and XML: in double quotes.
pub open spec fn quoted(s: Seq<char>) -> Seq<char> {
    "\""@ + s + "\""@
}

/// An ETag in double quotes.
pub fn quote_etag(etag: &str) -> (r: String)
    ensures
        r@ == quoted(etag@),
{
    let mut r = copy_str("\"");
    push_str(&mut r, etag);
    push_str(&mut r, "\"");
    r
}

/// `s` with every leading and trailing `"` removed, as
/// `trim_matches('"')` gives it.
pub open spec fn trim_quotes(s: Seq<char>) -> Seq<char>
    decreases s.len(),
{
    if s.len() > 0 && s[0] == '"' {
        trim_quotes(s.drop_first())
    } else if s.len() > 0 && s.last() == '"' {
        trim_quotes(s.drop_last())
    } else {
        s
    }
}

/// The ETag of a part as a completion request names it, without quotes.
pub fn unquote_etag(etag: &str) -> (r: String)
    ensures
        r@ == trim_quotes(etag@),
{
    let v = chars_of(etag);
    let mut lo: usize = 0;
    let mut hi: usize = v.len();
    assert(v@.subrange(0, v.len() as int) =~= etag@);
    while lo < hi && v[lo] == '"'
        invariant
            lo <= hi <= v.len(),
            hi == v.len(),
            trim_quotes(v@.subrange(lo as int, hi as int)) == trim_quotes(etag@),
        decreases hi - lo,
    {
        assert(v@.subrange(lo as int, hi as int).drop_first() =~= v@.subrange(lo + 1, hi as int));
        lo = lo + 1;
    }
    while lo < hi && v[hi - 1] == '"'
        invariant
            lo <= hi <= v.len(),
            lo < hi ==> v@[lo as int] != '"',
            trim_quotes(v@.subrange(lo as int, hi as int)) == trim_quotes(etag@),
        decreases hi - lo,
    {
        assert(v@.subrange(lo as int, hi as int).drop_last() =~= v@.subrange(lo as int, hi - 1));
        hi = hi - 1;
    }
    let r = slice_chars(&v, lo, hi);
    string_from_chars(&r)
}

/// Unquoting undoes quoting: an ETag that neither begins nor ends with `"`
/// (as every ETag this server issues) comes back unchanged from
/// `unquote_etag` after `quote_etag`.
pub proof fn lemma_unquote_quoted(e: Seq<char>)
    requires
        e.len() > 0 ==> e[0] != '"' && e.last() != '"',
    ensures
        trim_quotes(quoted(e)) == e,
{
    reveal_strlit("\"");
    let q = quoted(e);
    let q1 = q.drop_first();
    assert(q1 =~= e + "\""@);
    if e.len() > 0 {
        assert(q1[0] == e[0]);
        assert(q1.drop_last() =~= e);
        assert(trim_quotes(q1) == trim_quotes(e));
    } else {
        assert(q1.drop_first() =~= e);
        assert(trim_quotes(q1) == trim_quotes(q1.drop_first()));
    }
}

// ---------------------------------------------------------------------------
// Request parameters

/// The source of a copy: the text after one optional leading `/`, split at
/// its first `/` into bucket and key.
pub open spec fn spec_copy_source(source: Seq<char>) -> Option<(Seq<char>, Seq<char>)> {
    let s = strip_char(source, '/');
    match first_match(s, "/"@, 0) {
        Some(i) => Some((s.take(i), s.skip(i + 1))),
        None => None,
    }
}

/// Splits an `x-amz-copy-source` header into source bucket and key.
pub fn parse_copy_source(source: &str) -> (r: Result<(String, String), S3Error>)
    ensures
        match spec_copy_source(source@) {
            Some((b, k)) => r matches Ok((rb, rk)) && rb@ == b && rk@ == k,
            None => r matches Err(S3Error::InvalidArgument(m)) && m@ == "Invalid copy source"@,
        },
{
    proof {
        reveal_strlit("/");
    }
    let s = strip_char_exec(source, '/');
    let slash = chars_of("/");
    match find_from(&s, &slash, 0) {
        Some(i) => {
            let b = slice_chars(&s, 0, i);
            let k = slice_chars(&s, i + 1, s.len());
            assert(b@ =~= s@.take(i as int));
            assert(k@ =~= s@.skip(i + 1));
            Ok((string_from_chars(&b), string_from_chars(&k)))
        },
        None => Err(S3Error::InvalidArgument(copy_str("Invalid copy source"))),
    }
}

/// Reads the `partNumber` parameter of an upload request.
pub fn parse_part_number(s: &str) -> (r: Result<i32, S3Error>)
    ensures
        match parse_signed(s@, i32::MIN as int, i32::MAX as int) {
            Some(n) => r == Ok::<i32, S3Error>(n as i32),
            None => r matches Err(S3Error::InvalidArgument(m)) && m@ == "Invalid partNumber"@,
        },
{
    match parse_i32(s) {
        Some(n) => Ok(n),
        None => Err(S3Error::InvalidArgument(copy_str("Invalid partNumber"))),
    }
}

/// The page size of a listing: the `max-keys` parameter when it reads as a
/// `usize`, else 1000.
pub open spec fn spec_max_keys(param: Option<Seq<char>>) -> nat {
    match param {
        Some(p) => match parse_unsigned(p, usize::MAX as nat) {
            Some(n) => n,
            None => 1000,
        },
        None => 1000,
    }
}

/// The page size of a listing request.
pub fn max_keys_param(param: Option<&str>) -> (r: usize)
    ensures
        r == spec_max_keys(match param {
            Some(p) => Some(p@),
            None => None,
        }),
{
    match param {
        Some(p) => match parse_usize(p) {
            Some(n) => n,
            None => 1000,
        },
        None => 1000,
    }
}

/// Whether a listing asks for the second version of the listing format
/// (`list-type=2`); absent means the first.
pub fn is_list_v2(list_type: Option<&str>) -> (r: bool)
    ensures
        r == (list_type matches Some(t) && t@ == "2"@),
{
    match list_type {
        Some(t) => str_eq(t, "2"),
        None => false,
    }
}

// ---------------------------------------------------------------------------
// User metadata

/// The name of a user metadata header without its `x-amz-meta-` prefix.
pub open spec fn meta_name(header_name: Seq<char>) -> Option<Seq<char>> {
    if has_prefix(header_name, "x-amz-meta-"@) {
        Some(header_name.skip(11))
    } else {
        None
    }
}

/// The user metadata that the headers carry, later headers overriding
/// earlier ones with the same name.
pub open spec fn user_metadata_of(headers: Seq<(Seq<char>, Seq<char>)>) -> Map<Seq<char>, Seq<char>>
    decreases headers.len(),
{
    if headers.len() == 0 {
        Map::empty()
    } else {
        let m = user_metadata_of(headers.drop_last());
        let (n, v) = headers.last();
        match meta_name(n) {
            Some(k) => m.insert(k, v),
            None => m,
        }
    }
}

/// Collects the `x-amz-meta-*` headers (names lower-case, in the order the
/// request carries them) into user metadata.
pub fn collect_user_metadata(headers: &Vec<(String, String)>) -> (m: StrMap)
    ensures
        m.wf(),
        m.view_map() == user_metadata_of(crate::auth::header_views(headers@)),
{
    proof {
        reveal_strlit("x-amz-meta-");
    }
    let ghost hv = crate::auth::header_views(headers@);
    let pre = chars_of("x-amz-meta-");
    let mut m = StrMap::new();
    let mut i: usize = 0;
    while i < headers.len()
        invariant
            i <= headers.len(),
            hv == crate::auth::header_views(headers@),
            pre@ == "x-amz-meta-"@,
            m.wf(),
            m.view_map() == user_metadata_of(hv.take(i as int)),
        decreases headers.len() - i,
    {
        proof {
            reveal_strlit("x-amz-meta-");
        }
        assert(hv.take(i + 1).drop_last() =~= hv.take(i as int));
        let name = chars_of(headers[i].0.as_str());
        if starts_with_chars(&name, &pre) {
            let k = slice_chars(&name, 11, name.len());
            assert(k@ =~= name@.skip(11));
            m.insert(string_from_chars(&k), copy_str(headers[i].1.as_str()));
        }
        i = i + 1;
    }
    assert(hv.take(headers.len() as int) =~= hv);
    m
}

} // verus!
