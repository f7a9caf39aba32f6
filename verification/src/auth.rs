//! AWS Signature Version 4 verification of S3 requests.

use vstd::prelude::*;
use crate::text::{chars_of, string_from_chars, push_str, vviews, sviews, copy_str};
use crate::scan::{split_on, join, has_prefix, first_match, contains_seq, trim, ascii_lowercase, split_chars, join_chars, starts_with_chars, trim_chars, ascii_lowercase_chars, chars_eq, contains_chars, find_from, slice_chars, lemma_first_match_props};
use crate::crypto::{sha256, hmac_sha256, hex_lower, hex_digit_upper, hmac_bytes, hex_encode, sha256_digest};
use crate::codec::{percent_decode_lossy, url_decode};
use crate::strmap::{StrMap, sorted_entries, lemma_sorted_entries_of};
use crate::error::S3Error;
use vstd::utf8::encode_utf8;
use vstd::string::StringSliceAdditionalSpecFns;

verus! {

// ---------------------------------------------------------------------------
// URI encoding

/// Bytes that URI encoding leaves as they are.
pub open spec fn is_unreserved(b: u8) -> bool {
    ||| (65 <= b && b <= 90)
    ||| (97 <= b && b <= 122)
    ||| (48 <= b && b <= 57)
    ||| b == 95 || b == 45 || b == 126 || b == 46
}

/// One byte, URI-encoded: unreserved bytes as themselves, others as `%XX`.
pub open spec fn encode_byte(b: u8) -> Seq<char> {
    if is_unreserved(b) {
        seq![b as char]
    } else {
        seq!['%', hex_digit_upper(b as int / 16), hex_digit_upper(b as int % 16)]
    }
}

/// URI encoding of a byte sequence.
pub open spec fn uri_encode_bytes(b: Seq<u8>) -> Seq<char>
    decreases b.len(),
{
    if b.len() == 0 {
        Seq::empty()
    } else {
        uri_encode_bytes(b.drop_last()) + encode_byte(b.last())
    }
}

/// URI encoding of the UTF-8 bytes of a text, as AWS Signature V4 defines it.
pub open spec fn spec_uri_encode(s: Seq<char>) -> Seq<char> {
    uri_encode_bytes(encode_utf8(s))
}

/// One path byte: `/` kept, every other byte URI-encoded.
pub open spec fn encode_path_byte(b: u8) -> Seq<char> {
    if b == 47 {
        seq!['/']
    } else {
        encode_byte(b)
    }
}

pub open spec fn path_encode_bytes(b: Seq<u8>) -> Seq<char>
    decreases b.len(),
{
    if b.len() == 0 {
        Seq::empty()
    } else {
        path_encode_bytes(b.drop_last()) + encode_path_byte(b.last())
    }
}

/// The canonical URI of a path: `/` for an empty path, otherwise every
/// segment between slashes URI-encoded.
pub open spec fn spec_percent_encode_path(p: Seq<char>) -> Seq<char> {
    if p.len() == 0 || p == seq!['/'] {
        seq!['/']
    } else {
        path_encode_bytes(encode_utf8(p))
    }
}

fn hex_upper(d: u8) -> (c: char)
    requires
        d < 16,
    ensures
        c == hex_digit_upper(d as int),
{
    if d < 10 {
        (48u8 + d) as char
    } else {
        (55u8 + d) as char
    }
}

fn push_encoded(out: &mut Vec<char>, bytes: &[u8], keep_slash: bool)
    ensures
        final(out)@ == old(out)@ + (if keep_slash {
            path_encode_bytes(bytes@)
        } else {
            uri_encode_bytes(bytes@)
        }),
{
    let ghost start = out@;
    let mut i: usize = 0;
    while i < bytes.len()
        invariant
            i <= bytes.len(),
            out@ == start + (if keep_slash {
                path_encode_bytes(bytes@.take(i as int))
            } else {
                uri_encode_bytes(bytes@.take(i as int))
            }),
        decreases bytes.len() - i,
    {
        let b = bytes[i];
        assert(bytes@.take(i as int + 1).drop_last() =~= bytes@.take(i as int));
        assert(bytes@.take(i as int + 1).last() == b);
        if keep_slash && b == 47u8 {
            out.push('/');
        } else if (65u8 <= b && b <= 90u8) || (97u8 <= b && b <= 122u8) || (48u8 <= b && b <= 57u8)
            || b == 95u8 || b == 45u8 || b == 126u8 || b == 46u8 {
            out.push(b as char);
        } else {
            out.push('%');
            out.push(hex_upper(b / 16));
            out.push(hex_upper(b % 16));
        }
        assert(out@ =~= start + (if keep_slash {
            path_encode_bytes(bytes@.take(i as int + 1))
        } else {
            uri_encode_bytes(bytes@.take(i as int + 1))
        }));
        i = i + 1;
    }
    assert(bytes@.take(bytes.len() as int) =~= bytes@);
}

/// URI-encodes the UTF-8 bytes of `input` as AWS Signature V4 requires.
pub fn uri_encode(input: &str) -> (r: String)
    ensures
        r@ == spec_uri_encode(input@),
{
    let mut out: Vec<char> = Vec::new();
    push_encoded(&mut out, input.as_bytes(), false);
    assert(Seq::<char>::empty() + uri_encode_bytes(input.spec_bytes()) =~= uri_encode_bytes(input.spec_bytes()));
    string_from_chars(&out)
}

/// The canonical URI of a request path.
pub fn percent_encode_path(path: &str) -> (r: String)
    ensures
        r@ == spec_percent_encode_path(path@),
{
    let pc = chars_of(path);
    if pc.len() == 0 || (pc.len() == 1 && pc[0] == '/') {
        assert(pc.len() == 1 ==> pc@ =~= seq!['/']);
        let mut v: Vec<char> = Vec::new();
        v.push('/');
        assert(v@ =~= seq!['/']);
        return string_from_chars(&v);
    }
    assert(path@ != seq!['/']);
    let mut out: Vec<char> = Vec::new();
    push_encoded(&mut out, path.as_bytes(), true);
    assert(Seq::<char>::empty() + path_encode_bytes(path.spec_bytes()) =~= path_encode_bytes(path.spec_bytes()));
    string_from_chars(&out)
}

/// Compares two byte strings in time that depends only on their lengths.
pub fn constant_time_eq(a: &[u8], b: &[u8]) -> (r: bool)
    ensures
        r == (a@ == b@),
{
    if a.len() != b.len() {
        return false;
    }
    let mut diff: u8 = 0;
    let mut i: usize = 0;
    assert(a@.take(0) =~= b@.take(0));
    while i < a.len()
        invariant
            i <= a.len(),
            a.len() == b.len(),
            (diff == 0) == (a@.take(i as int) == b@.take(i as int)),
        decreases a.len() - i,
    {
        let x = a[i];
        let y = b[i];
        let d = diff;
        assert((d | (x ^ y)) == 0 <==> (d == 0 && x == y)) by (bit_vector);
        assert(a@.take(i as int + 1) =~= a@.take(i as int).push(x));
        assert(b@.take(i as int + 1) =~= b@.take(i as int).push(y));
        proof {
            if d == 0 && x == y {
                assert(a@.take(i as int + 1) =~= b@.take(i as int + 1));
            } else if x != y {
                assert(a@.take(i as int + 1)[i as int] != b@.take(i as int + 1)[i as int]);
            } else {
                assert(a@.take(i as int + 1).drop_last() =~= a@.take(i as int));
                assert(b@.take(i as int + 1).drop_last() =~= b@.take(i as int));
            }
        }
        diff = diff | (x ^ y);
        i = i + 1;
    }
    assert(a@.take(a.len() as int) =~= a@);
    assert(b@.take(b.len() as int) =~= b@);
    diff == 0
}

// ---------------------------------------------------------------------------
// Headers

/// The views of header entries.
pub open spec fn header_views(h: Seq<(String, String)>) -> Seq<(Seq<char>, Seq<char>)> {
    h.map_values(|e: (String, String)| (e.0@, e.1@))
}

/// The value of the first header whose (lower-case) name is `name` lower-cased,
/// as `HeaderMap::get` finds it.
pub open spec fn header_lookup(h: Seq<(Seq<char>, Seq<char>)>, name: Seq<char>) -> Option<Seq<char>>
    decreases h.len(),
{
    if h.len() == 0 {
        None
    } else if h[0].0 == ascii_lowercase(name) {
        Some(h[0].1)
    } else {
        header_lookup(h.drop_first(), name)
    }
}

/// Looks a header up by name, ignoring ASCII case in `name`.
pub fn header_value(headers: &Vec<(String, String)>, name: &str) -> (r: Option<String>)
    ensures
        match r {
            Some(v) => header_lookup(header_views(headers@), name@) == Some(v@),
            None => header_lookup(header_views(headers@), name@) is None,
        },
{
    let nc = chars_of(name);
    let lc = ascii_lowercase_chars(&nc);
    let ghost h = header_views(headers@);
    let mut i: usize = 0;
    assert(h.skip(0) =~= h);
    while i < headers.len()
        invariant
            i <= headers.len(),
            h == header_views(headers@),
            lc@ == ascii_lowercase(name@),
            header_lookup(h, name@) == header_lookup(h.skip(i as int), name@),
        decreases headers.len() - i,
    {
        let hc = chars_of(headers[i].0.as_str());
        assert(h.skip(i as int)[0] == h[i as int]);
        if chars_eq(&hc, &lc) {
            return Some(headers[i].1.clone());
        }
        assert(h.skip(i as int).drop_first() =~= h.skip(i as int + 1));
        i = i + 1;
    }
    None
}

/// The canonical headers block: one `name:trimmed-value` line per signed
/// header, a missing header giving an empty value.
pub open spec fn spec_canonical_headers(h: Seq<(Seq<char>, Seq<char>)>, names: Seq<Seq<char>>) -> Seq<char>
    decreases names.len(),
{
    if names.len() == 0 {
        Seq::empty()
    } else {
        let name = names.last();
        let value = match header_lookup(h, name) {
            Some(v) => v,
            None => Seq::empty(),
        };
        spec_canonical_headers(h, names.drop_last()) + name + ":"@ + trim(value) + "\n"@
    }
}

/// Builds the canonical headers block for the signed header names.
pub fn canonical_headers_string(headers: &Vec<(String, String)>, signed_headers: &Vec<String>) -> (r: String)
    ensures
        r@ == spec_canonical_headers(header_views(headers@), sviews(signed_headers@)),
{
    let mut result = String::new();
    let mut i: usize = 0;
    while i < signed_headers.len()
        invariant
            i <= signed_headers.len(),
            result@ == spec_canonical_headers(header_views(headers@), sviews(signed_headers@).take(i as int)),
        decreases signed_headers.len() - i,
    {
        let name = &signed_headers[i];
        let value = match header_value(headers, name.as_str()) {
            Some(v) => chars_of(v.as_str()),
            None => Vec::new(),
        };
        let trimmed = trim_chars(&value);
        assert(sviews(signed_headers@).take(i as int + 1).drop_last() =~= sviews(signed_headers@).take(i as int));
        push_str(&mut result, name.as_str());
        push_str(&mut result, ":");
        let t = string_from_chars(&trimmed);
        push_str(&mut result, t.as_str());
        push_str(&mut result, "\n");
        assert(result@ =~= spec_canonical_headers(header_views(headers@), sviews(signed_headers@).take(i as int + 1)));
        i = i + 1;
    }
    assert(sviews(signed_headers@).take(signed_headers.len() as int) =~= sviews(signed_headers@));
    result
}


// ---------------------------------------------------------------------------
// The Authorization header

/// Parsed AWS Signature V4 authorization info.
#[derive(Debug)]
pub struct AuthInfo {
    pub access_key: String,
    pub date: String,
    pub region: String,
    pub signed_headers: Vec<String>,
    pub signature: String,
}

/// The fields of an `Authorization` header: access key, date, region, signed
/// header names and signature.
pub struct AuthFields {
    pub access_key: Seq<char>,
    pub date: Seq<char>,
    pub region: Seq<char>,
    pub signed_headers: Seq<Seq<char>>,
    pub signature: Seq<char>,
}

/// The rest of the last part that starts with `key`, if any does.
pub open spec fn last_field(parts: Seq<Seq<char>>, key: Seq<char>) -> Option<Seq<char>>
    decreases parts.len(),
{
    if parts.len() == 0 {
        None
    } else if has_prefix(parts.last(), key) {
        Some(parts.last().skip(key.len() as int))
    } else {
        last_field(parts.drop_last(), key)
    }
}

pub open spec fn auth_scheme() -> Seq<char> {
    "AWS4-HMAC-SHA256 "@
}

/// `AWS4-HMAC-SHA256 Credential=AK/date/region/service/aws4_request,
/// SignedHeaders=a;b, Signature=hex`, read part by part; the last occurrence
/// of a field counts, and the credential must have exactly five parts.
pub open spec fn spec_parse_auth(h: Seq<char>) -> Option<AuthFields> {
    if !has_prefix(h, auth_scheme()) {
        None
    } else {
        let parts = split_on(h.skip(auth_scheme().len() as int), ", "@);
        match (last_field(parts, "Credential="@), last_field(parts, "SignedHeaders="@), last_field(parts, "Signature="@)) {
            (Some(c), Some(sh), Some(sig)) => {
                let cp = split_on(c, "/"@);
                if cp.len() != 5 {
                    None
                } else {
                    Some(AuthFields {
                        access_key: cp[0],
                        date: cp[1],
                        region: cp[2],
                        signed_headers: split_on(sh, ";"@),
                        signature: sig,
                    })
                }
            },
            _ => None,
        }
    }
}

/// The fields of parsed authorization info.
pub open spec fn auth_fields(a: AuthInfo) -> AuthFields {
    AuthFields {
        access_key: a.access_key@,
        date: a.date@,
        region: a.region@,
        signed_headers: sviews(a.signed_headers@),
        signature: a.signature@,
    }
}

proof fn lemma_last_field_step(parts: Seq<Seq<char>>, i: int, key: Seq<char>)
    requires
        0 <= i < parts.len(),
    ensures
        last_field(parts.take(i + 1), key) == (if has_prefix(parts[i], key) {
            Some(parts[i].skip(key.len() as int))
        } else {
            last_field(parts.take(i), key)
        }),
{
    assert(parts.take(i + 1).drop_last() =~= parts.take(i));
    assert(parts.take(i + 1).last() == parts[i]);
}

/// Strings holding each of the character vectors.
pub fn strings_of(v: &Vec<Vec<char>>) -> (r: Vec<String>)
    ensures
        sviews(r@) == vviews(v@),
{
    let mut r: Vec<String> = Vec::new();
    let mut i: usize = 0;
    while i < v.len()
        invariant
            i <= v.len(),
            sviews(r@) == vviews(v@).take(i as int),
        decreases v.len() - i,
    {
        let s = string_from_chars(&v[i]);
        let ghost old_r = r@;
        r.push(s);
        assert(r@ =~= old_r.push(s));
        assert(sviews(r@) =~= sviews(old_r).push(s@));
        assert(vviews(v@).take(i as int + 1) =~= vviews(v@).take(i as int).push(v@[i as int]@));
        assert(sviews(r@) =~= vviews(v@).take(i as int + 1));
        i = i + 1;
    }
    assert(vviews(v@).take(v.len() as int) =~= vviews(v@));
    r
}

/// Parses an `Authorization` header of the AWS Signature V4 scheme.
pub fn parse_auth_header(header: &str) -> (r: Result<AuthInfo, S3Error>)
    ensures
        match spec_parse_auth(header@) {
            Some(f) => r matches Ok(a) && auth_fields(a) == f,
            None => r == Err::<AuthInfo, S3Error>(S3Error::MissingSecurityHeader),
        },
{
    proof {
        reveal_strlit(", ");
        reveal_strlit("/");
        reveal_strlit(";");
        reveal_strlit("Credential=");
        reveal_strlit("SignedHeaders=");
        reveal_strlit("Signature=");
    }
    let h = chars_of(header);
    let scheme = chars_of("AWS4-HMAC-SHA256 ");
    if !starts_with_chars(&h, &scheme) {
        return Err(S3Error::MissingSecurityHeader);
    }
    let rest = slice_chars(&h, scheme.len(), h.len());
    assert(rest@ =~= header@.skip(auth_scheme().len() as int));
    let sep = chars_of(", ");
    let parts = split_chars(&rest, &sep);
    let ghost ps = vviews(parts@);
    let k_cred = chars_of("Credential=");
    let k_sh = chars_of("SignedHeaders=");
    let k_sig = chars_of("Signature=");
    let mut credential: Option<Vec<char>> = None;
    let mut signed_headers: Option<Vec<char>> = None;
    let mut signature: Option<Vec<char>> = None;
    let mut i: usize = 0;
    while i < parts.len()
        invariant
            i <= parts.len(),
            ps == vviews(parts@),
            k_cred@ == "Credential="@,
            k_sh@ == "SignedHeaders="@,
            k_sig@ == "Signature="@,
            match credential {
                Some(c) => last_field(ps.take(i as int), "Credential="@) == Some(c@),
                None => last_field(ps.take(i as int), "Credential="@) is None,
            },
            match signed_headers {
                Some(c) => last_field(ps.take(i as int), "SignedHeaders="@) == Some(c@),
                None => last_field(ps.take(i as int), "SignedHeaders="@) is None,
            },
            match signature {
                Some(c) => last_field(ps.take(i as int), "Signature="@) == Some(c@),
                None => last_field(ps.take(i as int), "Signature="@) is None,
            },
        decreases parts.len() - i,
    {
        let part = &parts[i];
        proof {
            lemma_last_field_step(ps, i as int, "Credential="@);
            lemma_last_field_step(ps, i as int, "SignedHeaders="@);
            lemma_last_field_step(ps, i as int, "Signature="@);
            assert(ps[i as int] == part@);
        }
        let is_cred = starts_with_chars(part, &k_cred);
        let is_sh = starts_with_chars(part, &k_sh);
        let is_sig = starts_with_chars(part, &k_sig);
        proof {
            // A part starts with at most one of the three keys.
            reveal_strlit("Credential=");
            reveal_strlit("SignedHeaders=");
            reveal_strlit("Signature=");
            if is_cred {
                assert(part@.take(11)[0] == part@[0]);
            }
            if is_sh {
                assert(part@.take(14)[0] == part@[0]);
                assert(part@.take(14)[4] == part@[4]);
            }
            if is_sig {
                assert(part@.take(10)[0] == part@[0]);
                assert(part@.take(10)[4] == part@[4]);
            }
        }
        if is_cred {
            credential = Some(slice_chars(part, k_cred.len(), part.len()));
        } else if is_sh {
            signed_headers = Some(slice_chars(part, k_sh.len(), part.len()));
        } else if is_sig {
            signature = Some(slice_chars(part, k_sig.len(), part.len()));
        }
        i = i + 1;
    }
    assert(ps.take(parts.len() as int) =~= ps);
    let credential = match credential {
        Some(c) => c,
        None => { return Err(S3Error::MissingSecurityHeader); },
    };
    let signed_headers = match signed_headers {
        Some(c) => c,
        None => { return Err(S3Error::MissingSecurityHeader); },
    };
    let signature = match signature {
        Some(c) => c,
        None => { return Err(S3Error::MissingSecurityHeader); },
    };
    let slash = chars_of("/");
    let cred_parts = split_chars(&credential, &slash);
    if cred_parts.len() != 5 {
        return Err(S3Error::MissingSecurityHeader);
    }
    let semi = chars_of(";");
    let sh_parts = split_chars(&signed_headers, &semi);
    let info = AuthInfo {
        access_key: string_from_chars(&cred_parts[0]),
        date: string_from_chars(&cred_parts[1]),
        region: string_from_chars(&cred_parts[2]),
        signed_headers: strings_of(&sh_parts),
        signature: string_from_chars(&signature),
    };
    Ok(info)
}


// ---------------------------------------------------------------------------
// Query strings

/// A `k=v` pair split at its first `=`; a pair without `=` has an empty value.
pub open spec fn split_pair(p: Seq<char>) -> (Seq<char>, Seq<char>) {
    match first_match(p, "="@, 0) {
        Some(i) => (p.take(i), p.skip(i + 1)),
        None => (p, Seq::empty()),
    }
}

/// The parameters of a query with keys and values percent-decoded, later
/// pairs replacing earlier ones; empty pairs are skipped.
pub open spec fn decoded_query_map(pairs: Seq<Seq<char>>) -> Map<Seq<char>, Seq<char>>
    decreases pairs.len(),
{
    if pairs.len() == 0 {
        Map::empty()
    } else {
        let m = decoded_query_map(pairs.drop_last());
        let p = pairs.last();
        if p.len() == 0 {
            m
        } else {
            match first_match(p, "="@, 0) {
                Some(i) => m.insert(percent_decode_lossy(p.take(i)), percent_decode_lossy(p.skip(i + 1))),
                None => m.insert(percent_decode_lossy(p), Seq::empty()),
            }
        }
    }
}

/// One parameter as it appears in a canonical query string.
pub open spec fn render_entry(e: (Seq<char>, Seq<char>)) -> Seq<char> {
    spec_uri_encode(e.0) + "="@ + spec_uri_encode(e.1)
}

/// Parameters rendered in the given order, joined with `&`.
pub open spec fn render_entries(s: Seq<(Seq<char>, Seq<char>)>) -> Seq<char> {
    join(s.map_values(|e: (Seq<char>, Seq<char>)| render_entry(e)), "&"@)
}

/// The canonical query string of a request: its parameters percent-decoded,
/// in increasing key order, each key and value then URI-encoded once (so a
/// value the client sent encoded is not encoded a second time).
pub open spec fn spec_canonical_query(q: Option<Seq<char>>) -> Seq<char> {
    match q {
        None => Seq::empty(),
        Some(q) => render_entries(sorted_entries(decoded_query_map(split_on(q, "&"@)))),
    }
}

fn build_query_map(q: &Vec<char>) -> (m: StrMap)
    ensures
        m.wf(),
        m.view_map() == decoded_query_map(split_on(q@, "&"@)),
{
    proof {
        reveal_strlit("&");
    }
    let amp = chars_of("&");
    let eq = chars_of("=");
    let pairs = split_chars(q, &amp);
    let ghost ps = vviews(pairs@);
    let mut m = StrMap::new();
    let mut i: usize = 0;
    assert(m.view_map() =~= Map::<Seq<char>, Seq<char>>::empty());
    assert(ps.take(0) =~= Seq::<Seq<char>>::empty());
    while i < pairs.len()
        invariant
            i <= pairs.len(),
            ps == vviews(pairs@),
            eq@ == "="@,
            m.wf(),
            m.view_map() == decoded_query_map(ps.take(i as int)),
        decreases pairs.len() - i,
    {
        let pair = &pairs[i];
        proof {
            reveal_strlit("=");
        }
        assert(ps.take(i as int + 1).drop_last() =~= ps.take(i as int));
        assert(ps.take(i as int + 1).last() == pair@);
        if pair.len() > 0 {
            proof { lemma_first_match_props(pair@, "="@, 0); }
            match find_from(pair, &eq, 0) {
                Some(j) => {
                    let k = string_from_chars(&slice_chars(pair, 0, j));
                    let v = string_from_chars(&slice_chars(pair, j + 1, pair.len()));
                    assert(k@ =~= pair@.take(j as int));
                    assert(v@ =~= pair@.skip(j + 1));
                    let dk = url_decode(k.as_str());
                    let dv = url_decode(v.as_str());
                    m.insert(dk, dv);
                },
                None => {
                    let k = string_from_chars(pair);
                    let dk = url_decode(k.as_str());
                    m.insert(dk, String::new());
                },
            }
        }
        i = i + 1;
    }
    assert(ps.take(pairs.len() as int) =~= ps);
    m
}

/// Renders the entries of a map, in their order, as a canonical query.
fn render_map(m: &StrMap) -> (r: String)
    ensures
        r@ == render_entries(m.view_entries()),
{
    proof {
        reveal_strlit("&");
    }
    let ghost s = m.view_entries();
    let ghost rs = s.map_values(|e: (Seq<char>, Seq<char>)| render_entry(e));
    let mut parts: Vec<Vec<char>> = Vec::new();
    let mut i: usize = 0;
    while i < m.len()
        invariant
            i <= s.len(),
            s == m.view_entries(),
            rs == s.map_values(|e: (Seq<char>, Seq<char>)| render_entry(e)),
            vviews(parts@) == rs.take(i as int),
        decreases s.len() - i,
    {
        let (k, v) = m.entry(i);
        let mut line = uri_encode(k.as_str());
        push_str(&mut line, "=");
        let ev = uri_encode(v.as_str());
        push_str(&mut line, ev.as_str());
        let lc = chars_of(line.as_str());
        assert(rs[i as int] == render_entry(s[i as int]));
        assert(lc@ =~= rs[i as int]);
        let ghost old_parts = parts@;
        parts.push(lc);
        assert(parts@ =~= old_parts.push(lc));
        assert(vviews(parts@) =~= vviews(old_parts).push(lc@));
        assert(rs.take(i as int + 1) =~= rs.take(i as int).push(rs[i as int]));
        assert(vviews(parts@) =~= rs.take(i as int + 1));
        i = i + 1;
    }
    assert(rs.take(s.len() as int) =~= rs);
    let amp = chars_of("&");
    let joined = join_chars(&parts, &amp);
    string_from_chars(&joined)
}

/// Builds the canonical query string of a request.
pub fn canonical_query_string(query: Option<&str>) -> (r: String)
    ensures
        r@ == spec_canonical_query(match query {
            Some(q) => Some(q@),
            None => None,
        }),
{
    match query {
        None => String::new(),
        Some(q) => {
            let qc = chars_of(q);
            let m = build_query_map(&qc);
            proof { lemma_sorted_entries_of(m.view_entries()); }
            render_map(&m)
        },
    }
}

/// Decodes the parameters of a query string.
pub fn url_decode_params(query: &str) -> (m: StrMap)
    ensures
        m.wf(),
        m.view_map() == decoded_query_map(split_on(query@, "&"@)),
{
    let qc = chars_of(query);
    build_query_map(&qc)
}


// ---------------------------------------------------------------------------
// Signatures

/// The AWS Signature V4 signing key for a secret key, date and region.
pub open spec fn spec_signing_key(secret: Seq<char>, date: Seq<char>, region: Seq<char>) -> Seq<u8> {
    let k_date = hmac_sha256(encode_utf8("AWS4"@ + secret), encode_utf8(date));
    let k_region = hmac_sha256(k_date, encode_utf8(region));
    let k_service = hmac_sha256(k_region, encode_utf8("s3"@));
    hmac_sha256(k_service, encode_utf8("aws4_request"@))
}

/// The credential scope of a date and region.
pub open spec fn spec_scope(date: Seq<char>, region: Seq<char>) -> Seq<char> {
    date + "/"@ + region + "/"@ + "s3"@ + "/"@ + "aws4_request"@
}

/// The canonical request: its six parts separated by newlines.
pub open spec fn spec_canonical_request(
    method: Seq<char>,
    uri: Seq<char>,
    query: Seq<char>,
    headers: Seq<char>,
    signed: Seq<char>,
    payload: Seq<char>,
) -> Seq<char> {
    method + "\n"@ + uri + "\n"@ + query + "\n"@ + headers + "\n"@ + signed + "\n"@ + payload
}

/// The string to sign for a request time, credential scope and canonical
/// request.
pub open spec fn spec_string_to_sign(amz_date: Seq<char>, scope: Seq<char>, creq: Seq<char>) -> Seq<char> {
    "AWS4-HMAC-SHA256\n"@ + amz_date + "\n"@ + scope + "\n"@ + hex_lower(sha256(encode_utf8(creq)))
}

/// The hex signature of a canonical request.
pub open spec fn spec_signature(
    secret: Seq<char>,
    date: Seq<char>,
    region: Seq<char>,
    amz_date: Seq<char>,
    creq: Seq<char>,
) -> Seq<char> {
    hex_lower(
        hmac_sha256(
            spec_signing_key(secret, date, region),
            encode_utf8(spec_string_to_sign(amz_date, spec_scope(date, region), creq)),
        ),
    )
}

/// Derives the signing key from the secret key, date and region.
pub fn derive_signing_key(secret_key: &str, date: &str, region: &str) -> (k: Vec<u8>)
    ensures
        k@ == spec_signing_key(secret_key@, date@, region@),
{
    let mut key = copy_str("AWS4");
    push_str(&mut key, secret_key);
    let date_key = hmac_bytes(key.as_str().as_bytes(), date.as_bytes());
    let region_key = hmac_bytes(date_key.as_slice(), region.as_bytes());
    let service_key = hmac_bytes(region_key.as_slice(), "s3".as_bytes());
    hmac_bytes(service_key.as_slice(), "aws4_request".as_bytes())
}

/// The lower-case hex HMAC-SHA256 tag of `data` under `key`.
pub fn hmac_hex(key: &[u8], data: &[u8]) -> (r: String)
    ensures
        r@ == hex_lower(hmac_sha256(key@, data@)),
{
    let tag = hmac_bytes(key, data);
    hex_encode(tag.as_slice())
}

/// Joins strings with `sep` between consecutive ones.
pub fn join_strings(v: &Vec<String>, sep: &str) -> (r: String)
    ensures
        r@ == join(sviews(v@), sep@),
{
    let mut parts: Vec<Vec<char>> = Vec::new();
    let mut i: usize = 0;
    while i < v.len()
        invariant
            i <= v.len(),
            vviews(parts@) == sviews(v@).take(i as int),
        decreases v.len() - i,
    {
        let c = chars_of(v[i].as_str());
        let ghost old_parts = parts@;
        parts.push(c);
        assert(parts@ =~= old_parts.push(c));
        assert(vviews(parts@) =~= vviews(old_parts).push(c@));
        assert(sviews(v@).take(i as int + 1) =~= sviews(v@).take(i as int).push(v@[i as int]@));
        i = i + 1;
    }
    assert(sviews(v@).take(v.len() as int) =~= sviews(v@));
    let sc = chars_of(sep);
    let j = join_chars(&parts, &sc);
    string_from_chars(&j)
}

/// Builds a canonical request from its six parts.
pub fn canonical_request(
    method: &str,
    uri: &str,
    query: &str,
    headers: &str,
    signed: &str,
    payload: &str,
) -> (r: String)
    ensures
        r@ == spec_canonical_request(method@, uri@, query@, headers@, signed@, payload@),
{
    let mut r = copy_str(method);
    push_str(&mut r, "\n");
    push_str(&mut r, uri);
    push_str(&mut r, "\n");
    push_str(&mut r, query);
    push_str(&mut r, "\n");
    push_str(&mut r, headers);
    push_str(&mut r, "\n");
    push_str(&mut r, signed);
    push_str(&mut r, "\n");
    push_str(&mut r, payload);
    r
}

/// The credential scope of a date and region.
pub fn scope(date: &str, region: &str) -> (r: String)
    ensures
        r@ == spec_scope(date@, region@),
{
    let mut r = copy_str(date);
    push_str(&mut r, "/");
    push_str(&mut r, region);
    push_str(&mut r, "/");
    push_str(&mut r, "s3");
    push_str(&mut r, "/");
    push_str(&mut r, "aws4_request");
    r
}

/// The signature of a canonical request under the secret key, date and region.
pub fn sign_canonical_request(
    secret_key: &str,
    date: &str,
    region: &str,
    amz_date: &str,
    creq: &str,
) -> (r: String)
    ensures
        r@ == spec_signature(secret_key@, date@, region@, amz_date@, creq@),
{
    let digest = sha256_digest(creq.as_bytes());
    let canonical_hash = hex_encode(digest.as_slice());
    let sc = scope(date, region);
    let mut sts = copy_str("AWS4-HMAC-SHA256\n");
    push_str(&mut sts, amz_date);
    push_str(&mut sts, "\n");
    push_str(&mut sts, sc.as_str());
    push_str(&mut sts, "\n");
    push_str(&mut sts, canonical_hash.as_str());
    assert(sts@ == spec_string_to_sign(amz_date@, spec_scope(date@, region@), creq@));
    let key = derive_signing_key(secret_key, date, region);
    hmac_hex(key.as_slice(), sts.as_str().as_bytes())
}

/// Whether two texts are equal, compared in constant time over their bytes.
fn signatures_match(expected: &str, provided: &str) -> (r: bool)
    ensures
        r == (expected@ == provided@),
{
    let r = constant_time_eq(expected.as_bytes(), provided.as_bytes());
    proof {
        vstd::utf8::encode_utf8_decode_utf8(expected@);
        vstd::utf8::encode_utf8_decode_utf8(provided@);
    }
    r
}

// ---------------------------------------------------------------------------
// Request verification

/// The payload hash a request declares, or `UNSIGNED-PAYLOAD`.
pub open spec fn spec_payload_hash(h: Seq<(Seq<char>, Seq<char>)>) -> Seq<char> {
    match header_lookup(h, "x-amz-content-sha256"@) {
        Some(v) => v,
        None => "UNSIGNED-PAYLOAD"@,
    }
}

/// Verification of a request that carries an `Authorization` header.
pub open spec fn spec_verify_header(
    method: Seq<char>,
    path: Seq<char>,
    query: Option<Seq<char>>,
    h: Seq<(Seq<char>, Seq<char>)>,
    access_key: Seq<char>,
    secret_key: Seq<char>,
    region: Seq<char>,
    auth_header: Seq<char>,
) -> Result<(), S3Error> {
    match spec_parse_auth(auth_header) {
        None => Err(S3Error::MissingSecurityHeader),
        Some(a) => if a.access_key != access_key {
            Err(S3Error::AccessDenied)
        } else {
            let creq = spec_canonical_request(
                method,
                spec_percent_encode_path(path),
                spec_canonical_query(query),
                spec_canonical_headers(h, a.signed_headers),
                join(a.signed_headers, ";"@),
                spec_payload_hash(h),
            );
            match header_lookup(h, "x-amz-date"@) {
                None => Err(S3Error::MissingSecurityHeader),
                Some(amz_date) => if spec_signature(secret_key, a.date, region, amz_date, creq) == a.signature {
                    Ok(())
                } else {
                    Err(S3Error::SignatureDoesNotMatch)
                },
            }
        },
    }
}

/// Verification of a presigned URL, whose credentials travel in the query.
pub open spec fn spec_verify_presigned(
    method: Seq<char>,
    path: Seq<char>,
    query: Option<Seq<char>>,
    h: Seq<(Seq<char>, Seq<char>)>,
    access_key: Seq<char>,
    secret_key: Seq<char>,
    region: Seq<char>,
) -> Result<(), S3Error> {
    let q = match query {
        Some(q) => q,
        None => Seq::empty(),
    };
    let params = decoded_query_map(split_on(q, "&"@));
    if !(params.dom().contains("X-Amz-Credential"@) && params.dom().contains("X-Amz-SignedHeaders"@)
        && params.dom().contains("X-Amz-Date"@) && params.dom().contains("X-Amz-Signature"@)) {
        Err(S3Error::MissingSecurityHeader)
    } else {
        let cp = split_on(params["X-Amz-Credential"@], "/"@);
        if cp.len() != 5 || cp[0] != access_key {
            Err(S3Error::AccessDenied)
        } else {
            let signed = split_on(params["X-Amz-SignedHeaders"@], ";"@);
            let creq = spec_canonical_request(
                method,
                spec_percent_encode_path(path),
                render_entries(sorted_entries(params.remove("X-Amz-Signature"@))),
                spec_canonical_headers(h, signed),
                join(signed, ";"@),
                "UNSIGNED-PAYLOAD"@,
            );
            if spec_signature(secret_key, cp[1], region, params["X-Amz-Date"@], creq)
                == params["X-Amz-Signature"@] {
                Ok(())
            } else {
                Err(S3Error::SignatureDoesNotMatch)
            }
        }
    }
}

/// Verification of a request: by its `Authorization` header, or, without one,
/// as a presigned URL when the query mentions `X-Amz-Signature`.
pub open spec fn spec_verify_request(
    method: Seq<char>,
    path: Seq<char>,
    query: Option<Seq<char>>,
    h: Seq<(Seq<char>, Seq<char>)>,
    access_key: Seq<char>,
    secret_key: Seq<char>,
    region: Seq<char>,
) -> Result<(), S3Error> {
    match header_lookup(h, "authorization"@) {
        Some(a) => spec_verify_header(method, path, query, h, access_key, secret_key, region, a),
        None => if query matches Some(q) && contains_seq(q, "X-Amz-Signature"@) {
            spec_verify_presigned(method, path, query, h, access_key, secret_key, region)
        } else {
            Err(S3Error::MissingSecurityHeader)
        },
    }
}

pub open spec fn opt_view(q: Option<&str>) -> Option<Seq<char>> {
    match q {
        Some(q) => Some(q@),
        None => None,
    }
}

/// Verifies an incoming S3 request's AWS Signature V4 authentication.
/// `headers` holds each header name once, lower-case, with its first value.
pub fn verify_request(
    method: &str,
    path: &str,
    query: Option<&str>,
    headers: &Vec<(String, String)>,
    access_key: &str,
    secret_key: &str,
    region: &str,
) -> (r: Result<(), S3Error>)
    ensures
        r == spec_verify_request(method@, path@, opt_view(query), header_views(headers@),
            access_key@, secret_key@, region@),
{
    let auth_header = match header_value(headers, "authorization") {
        Some(h) => h,
        None => {
            if let Some(q) = query {
                let qc = chars_of(q);
                let needle = chars_of("X-Amz-Signature");
                if contains_chars(&qc, &needle) {
                    return verify_presigned(method, path, query, headers, access_key, secret_key, region);
                }
            }
            return Err(S3Error::MissingSecurityHeader);
        },
    };
    let auth = parse_auth_header(auth_header.as_str())?;
    if !crate::scan::str_eq(auth.access_key.as_str(), access_key) {
        return Err(S3Error::AccessDenied);
    }
    let canonical_uri = percent_encode_path(path);
    let canonical_query = canonical_query_string(query);
    let canonical_headers = canonical_headers_string(headers, &auth.signed_headers);
    let signed_headers_str = join_strings(&auth.signed_headers, ";");
    let payload_hash = match header_value(headers, "x-amz-content-sha256") {
        Some(v) => v,
        None => copy_str("UNSIGNED-PAYLOAD"),
    };
    let creq = canonical_request(
        method,
        canonical_uri.as_str(),
        canonical_query.as_str(),
        canonical_headers.as_str(),
        signed_headers_str.as_str(),
        payload_hash.as_str(),
    );
    let amz_date = match header_value(headers, "x-amz-date") {
        Some(v) => v,
        None => { return Err(S3Error::MissingSecurityHeader); },
    };
    let expected = sign_canonical_request(secret_key, auth.date.as_str(), region, amz_date.as_str(), creq.as_str());
    if !signatures_match(expected.as_str(), auth.signature.as_str()) {
        return Err(S3Error::SignatureDoesNotMatch);
    }
    Ok(())
}

/// Verifies a presigned URL, whose credentials travel in the query.
pub fn verify_presigned(
    method: &str,
    path: &str,
    query: Option<&str>,
    headers: &Vec<(String, String)>,
    access_key: &str,
    secret_key: &str,
    region: &str,
) -> (r: Result<(), S3Error>)
    ensures
        r == spec_verify_presigned(method@, path@, opt_view(query), header_views(headers@),
            access_key@, secret_key@, region@),
{
    let query_str: &str = match query {
        Some(q) => q,
        None => "",
    };
    proof {
        reveal_strlit("");
        reveal_strlit("/");
        reveal_strlit(";");
    }
    assert(query_str@ == (match opt_view(query) { Some(q) => q, None => Seq::<char>::empty() }));
    let params = url_decode_params(query_str);
    let credential = match params.get("X-Amz-Credential") {
        Some(v) => v,
        None => { return Err(S3Error::MissingSecurityHeader); },
    };
    let signed_headers_str = match params.get("X-Amz-SignedHeaders") {
        Some(v) => v,
        None => { return Err(S3Error::MissingSecurityHeader); },
    };
    let amz_date = match params.get("X-Amz-Date") {
        Some(v) => v,
        None => { return Err(S3Error::MissingSecurityHeader); },
    };
    let provided_sig = match params.get("X-Amz-Signature") {
        Some(v) => v,
        None => { return Err(S3Error::MissingSecurityHeader); },
    };
    let cc = chars_of(credential.as_str());
    let slash = chars_of("/");
    let cred_parts = split_chars(&cc, &slash);
    if cred_parts.len() != 5 {
        return Err(S3Error::AccessDenied);
    }
    let akc = chars_of(access_key);
    if !chars_eq(&cred_parts[0], &akc) {
        return Err(S3Error::AccessDenied);
    }
    let date = string_from_chars(&cred_parts[1]);
    let shc = chars_of(signed_headers_str.as_str());
    let semi = chars_of(";");
    let signed_headers = strings_of(&split_chars(&shc, &semi));
    let unsigned = params.without("X-Amz-Signature");
    proof { lemma_sorted_entries_of(unsigned.view_entries()); }
    let canonical_query = render_map(&unsigned);
    let canonical_uri = percent_encode_path(path);
    let canonical_headers = canonical_headers_string(headers, &signed_headers);
    let signed_headers_joined = join_strings(&signed_headers, ";");
    let creq = canonical_request(
        method,
        canonical_uri.as_str(),
        canonical_query.as_str(),
        canonical_headers.as_str(),
        signed_headers_joined.as_str(),
        "UNSIGNED-PAYLOAD",
    );
    let expected = sign_canonical_request(secret_key, date.as_str(), region, amz_date.as_str(), creq.as_str());
    if !signatures_match(expected.as_str(), provided_sig.as_str()) {
        return Err(S3Error::SignatureDoesNotMatch);
    }
    Ok(())
}

} // verus!
