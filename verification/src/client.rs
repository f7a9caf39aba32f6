//! Requests to the upstream S3 endpoint: where they go and how they are
//! signed with AWS Signature Version 4.

use vstd::prelude::*;
use crate::text::{chars_of, string_from_chars, copy_str, push_str};
use crate::scan::{split_on, has_prefix, first_match, starts_with_chars, find_from, slice_chars, ends_with_chars};
use crate::auth::{spec_percent_encode_path, spec_canonical_request, spec_scope, spec_signature, percent_encode_path, canonical_request, scope, sign_canonical_request};
use crate::crypto::{sha256, hex_lower, sha256_digest, hex_encode};
use crate::storage::{trim_end_matches, lemma_split_nonempty};
use crate::clock::{stamp_text, stamp_char};
use crate::scan::{match_at, join, trim, is_ws, ascii_lowercase, lemma_first_match_skip};
use crate::auth::{spec_verify_request, spec_parse_auth, auth_scheme, header_lookup, spec_canonical_headers, spec_canonical_query, spec_payload_hash, last_field};

verus! {

/// `endpoint` without its `https://` or `http://` scheme.
pub open spec fn without_scheme(endpoint: Seq<char>) -> Seq<char> {
    if has_prefix(endpoint, "https://"@) {
        endpoint.skip(8)
    } else if has_prefix(endpoint, "http://"@) {
        endpoint.skip(7)
    } else {
        endpoint
    }
}

/// The host (with port) of an endpoint URL: what follows the scheme, up to
/// the first `/`.
pub open spec fn spec_parse_host(endpoint: Seq<char>) -> Seq<char> {
    split_on(without_scheme(endpoint), "/"@)[0]
}

/// The host (with port) of an endpoint URL.
pub fn parse_host(endpoint: &str) -> (r: String)
    ensures
        r@ == spec_parse_host(endpoint@),
{
    proof {
        reveal_strlit("https://");
        reveal_strlit("http://");
        reveal_strlit("/");
    }
    let e = chars_of(endpoint);
    let https = chars_of("https://");
    let http = chars_of("http://");
    let rest = if starts_with_chars(&e, &https) {
        slice_chars(&e, 8, e.len())
    } else if starts_with_chars(&e, &http) {
        slice_chars(&e, 7, e.len())
    } else {
        e
    };
    assert(rest@ =~= without_scheme(endpoint@));
    let slash = chars_of("/");
    proof {
        lemma_split_nonempty(rest@, "/"@);
        crate::scan::lemma_first_match_props(rest@, "/"@, 0);
    }
    match find_from(&rest, &slash, 0) {
        Some(i) => {
            let h = slice_chars(&rest, 0, i);
            assert(h@ =~= rest@.take(i as int));
            string_from_chars(&h)
        },
        None => string_from_chars(&rest),
    }
}

/// The endpoint URL without trailing slashes.
pub fn client_endpoint(endpoint: &str) -> (r: String)
    ensures
        r@ == trim_end_matches(endpoint@, "/"@),
{
    proof {
        reveal_strlit("/");
    }
    crate::storage::trim_suffix_repeatedly(endpoint, "/")
}

/// The path of a bucket upstream.
pub fn bucket_path(bucket: &str) -> (r: String)
    ensures
        r@ == "/"@ + bucket@,
{
    let mut r = copy_str("/");
    push_str(&mut r, bucket);
    r
}

/// The path of an object upstream.
pub fn object_path(bucket: &str, key: &str) -> (r: String)
    ensures
        r@ == "/"@ + bucket@ + "/"@ + key@,
{
    let mut r = copy_str("/");
    push_str(&mut r, bucket);
    push_str(&mut r, "/");
    push_str(&mut r, key);
    r
}

// ---------------------------------------------------------------------------
// Signing

/// A request path split at its first `?` into path and query.
pub open spec fn split_query(path: Seq<char>) -> (Seq<char>, Seq<char>) {
    match first_match(path, "?"@, 0) {
        Some(i) => (path.take(i), path.skip(i + 1)),
        None => (path, Seq::empty()),
    }
}

/// The signed header names, `;`-separated: the content type when there is
/// one, then host, payload hash and time.
pub open spec fn client_signed_headers(content_type: Seq<char>) -> Seq<char> {
    (if content_type.len() == 0 {
        Seq::empty()
    } else {
        "content-type"@ + ";"@
    }) + "host"@ + ";"@ + "x-amz-content-sha256"@ + ";"@ + "x-amz-date"@
}

/// The canonical headers of a request to the upstream server.
pub open spec fn client_canonical_headers(
    content_type: Seq<char>,
    host: Seq<char>,
    payload_hash: Seq<char>,
    amz_date: Seq<char>,
) -> Seq<char> {
    (if content_type.len() == 0 {
        Seq::empty()
    } else {
        "content-type"@ + ":"@ + content_type + "\n"@
    }) + "host"@ + ":"@ + host + "\n"@ + "x-amz-content-sha256"@ + ":"@ + payload_hash + "\n"@
        + "x-amz-date"@ + ":"@ + amz_date + "\n"@
}

/// The canonical request of a request to the upstream server.
pub open spec fn client_canonical_request(
    method: Seq<char>,
    path: Seq<char>,
    content_type: Seq<char>,
    host: Seq<char>,
    payload_hash: Seq<char>,
    amz_date: Seq<char>,
) -> Seq<char> {
    spec_canonical_request(
        method,
        spec_percent_encode_path(split_query(path).0),
        split_query(path).1,
        client_canonical_headers(content_type, host, payload_hash, amz_date),
        client_signed_headers(content_type),
        payload_hash,
    )
}

/// The `Authorization` header of a request to the upstream server.
pub open spec fn client_authorization(
    access_key: Seq<char>,
    secret_key: Seq<char>,
    region: Seq<char>,
    date_stamp: Seq<char>,
    amz_date: Seq<char>,
    content_type: Seq<char>,
    creq: Seq<char>,
) -> Seq<char> {
    crate::auth::auth_scheme() + "Credential="@ + access_key + "/"@ + spec_scope(date_stamp, region)
        + ", "@ + "SignedHeaders="@ + client_signed_headers(content_type) + ", "@ + "Signature="@
        + spec_signature(secret_key, date_stamp, region, amz_date, creq)
}

/// The headers of a request to the upstream server, as the request carries
/// them.
pub open spec fn client_headers(
    authorization: Seq<char>,
    amz_date: Seq<char>,
    payload_hash: Seq<char>,
    host: Seq<char>,
    content_type: Seq<char>,
) -> Seq<(Seq<char>, Seq<char>)> {
    seq![
        ("Authorization"@, authorization),
        ("x-amz-date"@, amz_date),
        ("x-amz-content-sha256"@, payload_hash),
        ("Host"@, host),
    ] + (if content_type.len() == 0 {
        Seq::empty()
    } else {
        seq![("Content-Type"@, content_type)]
    })
}

/// A request to the upstream server, ready to send.
pub struct SignedRequest {
    pub url: String,
    pub headers: Vec<(String, String)>,
}

/// The credentials and address of the upstream server.
pub struct UpstreamTarget {
    pub endpoint: String,
    pub host: String,
    pub access_key: String,
    pub secret_key: String,
    pub region: String,
}

impl UpstreamTarget {
    /// The target for an endpoint URL and credentials.
    pub fn new(endpoint: &str, access_key: &str, secret_key: &str, region: &str) -> (t: Self)
        ensures
            t.endpoint@ == trim_end_matches(endpoint@, "/"@),
            t.host@ == spec_parse_host(trim_end_matches(endpoint@, "/"@)),
            t.access_key@ == access_key@,
            t.secret_key@ == secret_key@,
            t.region@ == region@,
    {
        let e = client_endpoint(endpoint);
        let host = parse_host(e.as_str());
        UpstreamTarget {
            endpoint: e,
            host,
            access_key: copy_str(access_key),
            secret_key: copy_str(secret_key),
            region: copy_str(region),
        }
    }

    /// Signs a request with the given method, path (and query), body and
    /// content type (empty for none), at the time `amz_date`
    /// (`YYYYMMDDTHHMMSSZ`) of the day `date_stamp` (`YYYYMMDD`).
    pub fn sign(
        &self,
        method: &str,
        path: &str,
        body: &[u8],
        content_type: &str,
        amz_date: &str,
        date_stamp: &str,
    ) -> (r: SignedRequest)
        ensures
            r.url@ == self.endpoint@ + path@,
            crate::auth::header_views(r.headers@) == client_headers(
                client_authorization(
                    self.access_key@,
                    self.secret_key@,
                    self.region@,
                    date_stamp@,
                    amz_date@,
                    content_type@,
                    client_canonical_request(
                        method@,
                        path@,
                        content_type@,
                        self.host@,
                        hex_lower(sha256(body@)),
                        amz_date@,
                    ),
                ),
                amz_date@,
                hex_lower(sha256(body@)),
                self.host@,
                content_type@,
            ),
    {
        proof {
            reveal_strlit("?");
        }
        let mut url = copy_str(self.endpoint.as_str());
        push_str(&mut url, path);
        let digest = sha256_digest(body);
        let payload_hash = hex_encode(digest.as_slice());
        let pc = chars_of(path);
        let q = chars_of("?");
        let (uri_path, query) = match find_from(&pc, &q, 0) {
            Some(i) => {
                let a = slice_chars(&pc, 0, i);
                let b = slice_chars(&pc, i + 1, pc.len());
                assert(a@ =~= pc@.take(i as int));
                assert(b@ =~= pc@.skip(i + 1));
                (string_from_chars(&a), string_from_chars(&b))
            },
            None => (copy_str(path), String::new()),
        };
        assert(uri_path@ == split_query(path@).0 && query@ == split_query(path@).1);
        let canonical_uri = percent_encode_path(uri_path.as_str());
        let has_type = chars_of(content_type).len() > 0;
        let mut headers_text = String::new();
        if has_type {
            push_str(&mut headers_text, "content-type");
            push_str(&mut headers_text, ":");
            push_str(&mut headers_text, content_type);
            push_str(&mut headers_text, "\n");
        }
        push_str(&mut headers_text, "host");
        push_str(&mut headers_text, ":");
        push_str(&mut headers_text, self.host.as_str());
        push_str(&mut headers_text, "\n");
        push_str(&mut headers_text, "x-amz-content-sha256");
        push_str(&mut headers_text, ":");
        push_str(&mut headers_text, payload_hash.as_str());
        push_str(&mut headers_text, "\n");
        push_str(&mut headers_text, "x-amz-date");
        push_str(&mut headers_text, ":");
        push_str(&mut headers_text, amz_date);
        push_str(&mut headers_text, "\n");
        assert(headers_text@ =~= client_canonical_headers(content_type@, self.host@, payload_hash@, amz_date@));
        let mut signed_text = String::new();
        if has_type {
            push_str(&mut signed_text, "content-type");
            push_str(&mut signed_text, ";");
        }
        push_str(&mut signed_text, "host");
        push_str(&mut signed_text, ";");
        push_str(&mut signed_text, "x-amz-content-sha256");
        push_str(&mut signed_text, ";");
        push_str(&mut signed_text, "x-amz-date");
        assert(signed_text@ =~= client_signed_headers(content_type@));
        let signed = signed_text.as_str();
        let creq = canonical_request(
            method,
            canonical_uri.as_str(),
            query.as_str(),
            headers_text.as_str(),
            signed,
            payload_hash.as_str(),
        );
        let signature = sign_canonical_request(
            self.secret_key.as_str(),
            date_stamp,
            self.region.as_str(),
            amz_date,
            creq.as_str(),
        );
        let sc = scope(date_stamp, self.region.as_str());
        let mut auth = copy_str("AWS4-HMAC-SHA256 ");
        push_str(&mut auth, "Credential=");
        push_str(&mut auth, self.access_key.as_str());
        push_str(&mut auth, "/");
        push_str(&mut auth, sc.as_str());
        push_str(&mut auth, ", ");
        push_str(&mut auth, "SignedHeaders=");
        push_str(&mut auth, signed);
        push_str(&mut auth, ", ");
        push_str(&mut auth, "Signature=");
        push_str(&mut auth, signature.as_str());
        let mut headers: Vec<(String, String)> = Vec::new();
        headers.push((copy_str("Authorization"), auth));
        headers.push((copy_str("x-amz-date"), copy_str(amz_date)));
        headers.push((copy_str("x-amz-content-sha256"), payload_hash));
        headers.push((copy_str("Host"), copy_str(self.host.as_str())));
        if has_type {
            headers.push((copy_str("Content-Type"), copy_str(content_type)));
        }
        let r = SignedRequest { url, headers };
        assert(crate::auth::header_views(r.headers@) =~= client_headers(
            auth@,
            amz_date@,
            hex_lower(sha256(body@)),
            self.host@,
            content_type@,
        ));
        r
    }
}

// ---------------------------------------------------------------------------
// Signed requests verify

/// No character of `s` is `c`.
pub open spec fn free_of(s: Seq<char>, c: char) -> bool {
    forall|i: int| 0 <= i < s.len() ==> s[i] != c
}

/// The headers as the receiving server reads them: names lower-cased.
pub open spec fn received(h: Seq<(Seq<char>, Seq<char>)>) -> Seq<(Seq<char>, Seq<char>)> {
    h.map_values(|e: (Seq<char>, Seq<char>)| (ascii_lowercase(e.0), e.1))
}

proof fn lemma_no_match_before(s: Seq<char>, sep: Seq<char>, n: int)
    requires
        sep.len() > 0,
        0 <= n <= s.len(),
        forall|i: int| 0 <= i < n ==> s[i] != sep[0],
    ensures
        forall|k: int| 0 <= k < n ==> !match_at(s, k, sep),
{
    assert forall|k: int| 0 <= k < n implies !match_at(s, k, sep) by {
        if match_at(s, k, sep) {
            assert(s.subrange(k, k + sep.len())[0] == s[k]);
        }
    }
}

/// Splitting at the first separator, when the text before it holds no
/// character that starts the separator.
proof fn lemma_split_first(a: Seq<char>, sep: Seq<char>, b: Seq<char>)
    requires
        sep.len() > 0,
        free_of(a, sep[0]),
    ensures
        split_on(a + sep + b, sep) == seq![a] + split_on(b, sep),
{
    let s = a + sep + b;
    assert forall|i: int| 0 <= i < a.len() implies s[i] != sep[0] by {
        assert(s[i] == a[i]);
    }
    lemma_no_match_before(s, sep, a.len() as int);
    lemma_first_match_skip(s, sep, 0, a.len() as int);
    assert(s.subrange(a.len() as int, (a.len() + sep.len()) as int) =~= sep);
    assert(first_match(s, sep, a.len() as int) == Some(a.len() as int));
    assert(s.take(a.len() as int) =~= a);
    assert(s.skip((a.len() + sep.len()) as int) =~= b);
}

/// No `,` in `s` is followed by a space: `s` holds no `", "`.
pub open spec fn free_of_comma_space(s: Seq<char>) -> bool {
    forall|k: int| 0 <= k < s.len() - 1 ==> !(#[trigger] s[k] == ',' && s[k + 1] == ' ')
}

/// Text without commas holds no `", "`.
proof fn lemma_no_comma_no_pair(s: Seq<char>)
    requires
        free_of(s, ','),
    ensures
        free_of_comma_space(s),
{
}

/// Two texts without `", "` make one without it, unless a comma ends the
/// first and a space begins the second.
proof fn lemma_pair_free_concat(x: Seq<char>, y: Seq<char>)
    requires
        free_of_comma_space(x),
        free_of_comma_space(y),
        !(x.len() > 0 && y.len() > 0 && x.last() == ',' && y[0] == ' '),
    ensures
        free_of_comma_space(x + y),
{
    let s = x + y;
    assert forall|k: int| 0 <= k < s.len() - 1 implies !(#[trigger] s[k] == ',' && s[k + 1] == ' ') by {
        if k + 1 < x.len() {
            assert(s[k] == x[k] && s[k + 1] == x[k + 1]);
        } else if k + 1 == x.len() {
            assert(s[k] == x.last() && s[k + 1] == y[0]);
        } else {
            assert(s[k] == y[k - x.len()] && s[k + 1] == y[k + 1 - x.len()]);
        }
    }
}

/// Splitting at the first `", "`, when the text before it holds none.
proof fn lemma_split_first_pair(a: Seq<char>, b: Seq<char>)
    requires
        free_of_comma_space(a),
    ensures
        split_on(a + ", "@ + b, ", "@) == seq![a] + split_on(b, ", "@),
{
    reveal_strlit(", ");
    let sep = ", "@;
    let s = a + sep + b;
    assert forall|k: int| 0 <= k < a.len() implies !match_at(s, k, sep) by {
        if match_at(s, k, sep) {
            assert(s.subrange(k, k + 2)[0] == s[k]);
            assert(s.subrange(k, k + 2)[1] == s[k + 1]);
            if k + 1 < a.len() {
                assert(s[k] == a[k] && s[k + 1] == a[k + 1]);
            } else {
                assert(s[k + 1] == ',');
            }
        }
    }
    lemma_first_match_skip(s, sep, 0, a.len() as int);
    assert(s.subrange(a.len() as int, (a.len() + sep.len()) as int) =~= sep);
    assert(first_match(s, sep, a.len() as int) == Some(a.len() as int));
    assert(s.take(a.len() as int) =~= a);
    assert(s.skip((a.len() + sep.len()) as int) =~= b);
}

/// A text without the separator's first character is one piece.
proof fn lemma_split_whole(a: Seq<char>, sep: Seq<char>)
    requires
        sep.len() > 0,
        free_of(a, sep[0]),
    ensures
        split_on(a, sep) == seq![a],
{
    lemma_no_match_before(a, sep, a.len() as int);
    lemma_first_match_skip(a, sep, 0, a.len() as int);
}

/// Hex digits are neither commas nor whitespace.
proof fn lemma_hex_plain(b: Seq<u8>)
    ensures
        free_of(hex_lower(b), ','),
        forall|i: int| 0 <= i < hex_lower(b).len() ==> !is_ws(#[trigger] hex_lower(b)[i]),
    decreases b.len(),
{
    if b.len() > 0 {
        lemma_hex_plain(b.drop_last());
        let h = hex_lower(b);
        let t = hex_lower(b.drop_last());
        assert forall|i: int| 0 <= i < h.len() implies h[i] != ',' && !is_ws(h[i]) by {
            if i < t.len() {
                assert(h[i] == t[i]);
            }
        }
    }
}

/// Text that neither starts nor ends with whitespace is its own trim.
proof fn lemma_trim_plain(s: Seq<char>)
    requires
        forall|i: int| 0 <= i < s.len() ==> !is_ws(#[trigger] s[i]),
    ensures
        trim(s) == s,
{
    if s.len() > 0 {
        assert(!is_ws(s[0]));
        assert(!is_ws(s[s.len() - 1]));
    }
}

/// How the receiving server finds the headers of a signed request.
proof fn lemma_received_lookups(
    auth: Seq<char>,
    amz_date: Seq<char>,
    ph: Seq<char>,
    host: Seq<char>,
    content_type: Seq<char>,
)
    ensures
        ({
            let h = received(client_headers(auth, amz_date, ph, host, content_type));
            &&& header_lookup(h, "authorization"@) == Some(auth)
            &&& header_lookup(h, "x-amz-date"@) == Some(amz_date)
            &&& header_lookup(h, "x-amz-content-sha256"@) == Some(ph)
            &&& header_lookup(h, "host"@) == Some(host)
            &&& content_type.len() > 0 ==> header_lookup(h, "content-type"@) == Some(content_type)
        }),
{
    reveal_strlit("Authorization");
    reveal_strlit("authorization");
    reveal_strlit("x-amz-date");
    reveal_strlit("x-amz-content-sha256");
    reveal_strlit("Host");
    reveal_strlit("host");
    reveal_strlit("Content-Type");
    reveal_strlit("content-type");
    let h = received(client_headers(auth, amz_date, ph, host, content_type));
    assert(ascii_lowercase("Authorization"@) =~= "authorization"@);
    assert(ascii_lowercase("authorization"@) =~= "authorization"@);
    assert(ascii_lowercase("x-amz-date"@) =~= "x-amz-date"@);
    assert(ascii_lowercase("x-amz-content-sha256"@) =~= "x-amz-content-sha256"@);
    assert(ascii_lowercase("Host"@) =~= "host"@);
    assert(ascii_lowercase("host"@) =~= "host"@);
    assert(ascii_lowercase("Content-Type"@) =~= "content-type"@);
    assert(ascii_lowercase("content-type"@) =~= "content-type"@);
    reveal_with_fuel(header_lookup, 6);
    assert(h[0] == ("authorization"@, auth));
    assert(h[1] == ("x-amz-date"@, amz_date));
    assert(h[2] == ("x-amz-content-sha256"@, ph));
    assert(h[3] == ("host"@, host));
    assert(h.drop_first()[0] == h[1]);
    assert(h.drop_first().drop_first()[0] == h[2]);
    assert(h.drop_first().drop_first().drop_first()[0] == h[3]);
    if content_type.len() > 0 {
        assert(h[4] == ("content-type"@, content_type));
        assert(h.drop_first().drop_first().drop_first().drop_first()[0] == h[4]);
    }
}

/// The authorization header of a signed request parses back into the
/// access key, date, region, signed header names and signature.
proof fn lemma_authorization_parses(
    access_key: Seq<char>,
    region: Seq<char>,
    date_stamp: Seq<char>,
    content_type: Seq<char>,
    sig: Seq<char>,
)
    requires
        free_of(access_key, '/') && free_of_comma_space(access_key),
        free_of(date_stamp, '/') && free_of_comma_space(date_stamp),
        free_of(region, '/') && free_of_comma_space(region),
        free_of(sig, ','),
    ensures
        ({
            let auth = auth_scheme() + "Credential="@ + access_key + "/"@ + spec_scope(date_stamp, region)
                + ", "@ + "SignedHeaders="@ + client_signed_headers(content_type) + ", "@
                + "Signature="@ + sig;
            &&& spec_parse_auth(auth) is Some
            &&& spec_parse_auth(auth).unwrap().access_key == access_key
            &&& spec_parse_auth(auth).unwrap().date == date_stamp
            &&& spec_parse_auth(auth).unwrap().signed_headers == split_on(client_signed_headers(content_type), ";"@)
            &&& spec_parse_auth(auth).unwrap().signature == sig
        }),
{
    reveal_strlit("/");
    reveal_strlit(";");
    reveal_strlit(", ");
    reveal_strlit("AWS4-HMAC-SHA256 ");
    reveal_strlit("Credential=");
    reveal_strlit("SignedHeaders=");
    reveal_strlit("Signature=");
    reveal_strlit("s3");
    reveal_strlit("aws4_request");
    reveal_strlit("content-type");
    reveal_strlit("host");
    reveal_strlit("x-amz-content-sha256");
    reveal_strlit("x-amz-date");
    let sh = client_signed_headers(content_type);
    let scope = spec_scope(date_stamp, region);
    let auth = auth_scheme() + "Credential="@ + access_key + "/"@ + scope + ", "@ + "SignedHeaders="@ + sh
        + ", "@ + "Signature="@ + sig;
    let p0 = "Credential="@ + access_key + "/"@ + scope;
    let p1 = "SignedHeaders="@ + sh;
    let p2 = "Signature="@ + sig;
    let rest = p0 + ", "@ + p1 + ", "@ + p2;
    assert(auth =~= auth_scheme() + rest);
    assert(auth.take(auth_scheme().len() as int) =~= auth_scheme());
    assert(auth.skip(auth_scheme().len() as int) =~= rest);
    assert(free_of_comma_space(p0)) by {
        let lit_c = "Credential="@;
        let lit_s = "/"@;
        let tail = "s3"@ + "/"@ + "aws4_request"@;
        assert(free_of(lit_c, ','));
        assert(free_of(tail, ','));
        lemma_no_comma_no_pair(lit_c);
        lemma_no_comma_no_pair(lit_s);
        lemma_no_comma_no_pair(tail);
        lemma_pair_free_concat(date_stamp, lit_s);
        lemma_pair_free_concat(date_stamp + lit_s, region);
        lemma_pair_free_concat(date_stamp + lit_s + region, lit_s);
        lemma_pair_free_concat(date_stamp + lit_s + region + lit_s, tail);
        assert(scope =~= date_stamp + lit_s + region + lit_s + tail);
        lemma_pair_free_concat(lit_c, access_key);
        lemma_pair_free_concat(lit_c + access_key, lit_s);
        lemma_pair_free_concat(lit_c + access_key + lit_s, scope);
        assert(p0 =~= lit_c + access_key + lit_s + scope);
    }
    assert(free_of(p1, ','));
    assert(free_of(p2, ',')) by {
        assert forall|i: int| 0 <= i < p2.len() implies p2[i] != ',' by {
            if i >= 10 {
                assert(p2[i] == sig[i - 10]);
            }
        }
    }
    lemma_no_comma_no_pair(p1);
    lemma_split_first_pair(p0, p1 + ", "@ + p2);
    lemma_split_first_pair(p1, p2);
    lemma_split_whole(p2, ", "@);
    assert(rest =~= p0 + ", "@ + (p1 + ", "@ + p2));
    let parts = split_on(rest, ", "@);
    assert(parts =~= seq![p0, p1, p2]);
    reveal_with_fuel(last_field, 4);
    assert(!has_prefix(p2, "Credential="@)) by {
        if has_prefix(p2, "Credential="@) {
            assert(p2.take(11)[0] == p2[0]);
        }
    }
    assert(!has_prefix(p1, "Credential="@)) by {
        if has_prefix(p1, "Credential="@) {
            assert(p1.take(11)[0] == p1[0]);
        }
    }
    assert(!has_prefix(p2, "SignedHeaders="@)) by {
        if has_prefix(p2, "SignedHeaders="@) {
            assert(p2.take(14)[4] == p2[4]);
        }
    }
    assert(p0.take(11) =~= "Credential="@);
    assert(p1.take(14) =~= "SignedHeaders="@);
    assert(p2.take(10) =~= "Signature="@);
    assert(parts.drop_last() =~= seq![p0, p1]);
    assert(parts.drop_last().drop_last() =~= seq![p0]);
    let cred = p0.skip(11);
    assert(cred =~= access_key + "/"@ + scope);
    assert(last_field(parts, "Credential="@) == Some(cred));
    assert(p1.skip(14) =~= sh);
    assert(last_field(parts, "SignedHeaders="@) == Some(sh));
    assert(p2.skip(10) =~= sig);
    assert(last_field(parts, "Signature="@) == Some(sig));
    let region_tail = "s3"@ + "/"@ + "aws4_request"@;
    lemma_split_whole("aws4_request"@, "/"@);
    lemma_split_first("s3"@, "/"@, "aws4_request"@);
    lemma_split_first(region, "/"@, region_tail);
    lemma_split_first(date_stamp, "/"@, region + "/"@ + region_tail);
    lemma_split_first(access_key, "/"@, date_stamp + "/"@ + (region + "/"@ + region_tail));
    assert(cred =~= access_key + "/"@ + (date_stamp + "/"@ + (region + "/"@ + region_tail)));
    let cp = split_on(cred, "/"@);
    assert(cp =~= seq![access_key, date_stamp, region, "s3"@, "aws4_request"@]);
}

/// The signed header names of a request, joined back, give the list they
/// were split from, and the canonical headers the server rebuilds from them
/// are the ones the signer used.
proof fn lemma_signed_names(
    h: Seq<(Seq<char>, Seq<char>)>,
    content_type: Seq<char>,
    host: Seq<char>,
    ph: Seq<char>,
    amz_date: Seq<char>,
)
    requires
        header_lookup(h, "x-amz-date"@) == Some(amz_date),
        header_lookup(h, "x-amz-content-sha256"@) == Some(ph),
        header_lookup(h, "host"@) == Some(host),
        content_type.len() > 0 ==> header_lookup(h, "content-type"@) == Some(content_type),
        trim(host) == host,
        trim(amz_date) == amz_date,
        trim(content_type) == content_type,
        trim(ph) == ph,
    ensures
        join(split_on(client_signed_headers(content_type), ";"@), ";"@) == client_signed_headers(content_type),
        spec_canonical_headers(h, split_on(client_signed_headers(content_type), ";"@))
            == client_canonical_headers(content_type, host, ph, amz_date),
{
    reveal_strlit(";");
    reveal_strlit("content-type");
    reveal_strlit("host");
    reveal_strlit("x-amz-content-sha256");
    reveal_strlit("x-amz-date");
    let sh = client_signed_headers(content_type);
    let base = "host"@ + ";"@ + "x-amz-content-sha256"@ + ";"@ + "x-amz-date"@;
    lemma_split_whole("x-amz-date"@, ";"@);
    lemma_split_first("x-amz-content-sha256"@, ";"@, "x-amz-date"@);
    lemma_split_first("host"@, ";"@, "x-amz-content-sha256"@ + ";"@ + "x-amz-date"@);
    assert(base =~= "host"@ + ";"@ + ("x-amz-content-sha256"@ + ";"@ + "x-amz-date"@));
    let names3 = seq!["host"@, "x-amz-content-sha256"@, "x-amz-date"@];
    assert(split_on(base, ";"@) =~= names3);
    lemma_split_first("content-type"@, ";"@, base);
    let n = split_on(sh, ";"@);
    reveal_with_fuel(join, 5);
    reveal_with_fuel(spec_canonical_headers, 5);
    if content_type.len() == 0 {
        assert(sh =~= base);
        assert(n =~= names3);
        assert(n.drop_last() =~= seq!["host"@, "x-amz-content-sha256"@]);
        assert(n.drop_last().drop_last() =~= seq!["host"@]);
        assert(n.drop_last().drop_last().drop_last() =~= Seq::<Seq<char>>::empty());
        assert(join(n, ";"@) =~= sh);
        assert(spec_canonical_headers(h, n) =~= client_canonical_headers(content_type, host, ph, amz_date));
    } else {
        assert(sh =~= "content-type"@ + ";"@ + base);
        assert(n =~= seq!["content-type"@] + names3);
        assert(n.drop_last() =~= seq!["content-type"@, "host"@, "x-amz-content-sha256"@]);
        assert(n.drop_last().drop_last() =~= seq!["content-type"@, "host"@]);
        assert(n.drop_last().drop_last().drop_last() =~= seq!["content-type"@]);
        assert(n.drop_last().drop_last().drop_last().drop_last() =~= Seq::<Seq<char>>::empty());
        assert(join(n, ";"@) =~= sh);
        assert(spec_canonical_headers(h, n) =~= client_canonical_headers(content_type, host, ph, amz_date));
    }
}

/// The server accepts any header list in which the signed request's headers
/// are found by name with the values the signer gave them, whatever their
/// order and whatever other headers travel with them. The path carries no
/// query, the access key, date and region hold neither `/` nor `", "` (the
/// separators the server splits the credential and the header at), and the
/// host, time and content type have no surrounding whitespace.
pub proof fn lemma_signed_headers_verify(
    method: Seq<char>,
    path: Seq<char>,
    body: Seq<u8>,
    content_type: Seq<char>,
    host: Seq<char>,
    access_key: Seq<char>,
    secret_key: Seq<char>,
    region: Seq<char>,
    amz_date: Seq<char>,
    date_stamp: Seq<char>,
    h: Seq<(Seq<char>, Seq<char>)>,
)
    requires
        free_of(path, '?'),
        free_of(access_key, '/') && free_of_comma_space(access_key),
        free_of(date_stamp, '/') && free_of_comma_space(date_stamp),
        free_of(region, '/') && free_of_comma_space(region),
        trim(host) == host,
        trim(amz_date) == amz_date,
        trim(content_type) == content_type,
        ({
            let ph = hex_lower(sha256(body));
            let creq = client_canonical_request(method, path, content_type, host, ph, amz_date);
            let auth = client_authorization(
                access_key,
                secret_key,
                region,
                date_stamp,
                amz_date,
                content_type,
                creq,
            );
            &&& header_lookup(h, "authorization"@) == Some(auth)
            &&& header_lookup(h, "x-amz-date"@) == Some(amz_date)
            &&& header_lookup(h, "x-amz-content-sha256"@) == Some(ph)
            &&& header_lookup(h, "host"@) == Some(host)
            &&& content_type.len() > 0 ==> header_lookup(h, "content-type"@) == Some(content_type)
        }),
    ensures
        spec_verify_request(method, path, None, h, access_key, secret_key, region) == Ok::<
            (),
            crate::error::S3Error,
        >(()),
{
    reveal_strlit("?");
    let ph = hex_lower(sha256(body));
    let creq = client_canonical_request(method, path, content_type, host, ph, amz_date);
    let sig = spec_signature(secret_key, date_stamp, region, amz_date, creq);
    let auth = client_authorization(access_key, secret_key, region, date_stamp, amz_date, content_type, creq);
    lemma_hex_plain(sha256(body));
    lemma_trim_plain(ph);
    lemma_hex_plain(
        crate::crypto::hmac_sha256(
            crate::auth::spec_signing_key(secret_key, date_stamp, region),
            vstd::utf8::encode_utf8(crate::auth::spec_string_to_sign(amz_date, spec_scope(date_stamp, region), creq)),
        ),
    );
    lemma_no_match_before(path, "?"@, path.len() as int);
    lemma_first_match_skip(path, "?"@, 0, path.len() as int);
    assert(split_query(path) == (path, Seq::<char>::empty()));
    lemma_authorization_parses(access_key, region, date_stamp, content_type, sig);
    lemma_signed_names(h, content_type, host, ph, amz_date);
    let a = spec_parse_auth(auth).unwrap();
    assert(spec_payload_hash(h) == ph);
    assert(spec_canonical_query(None) == Seq::<char>::empty());
    assert(a.signature == sig);
}

/// A request that the upstream target signs passes the server's signature
/// check under the same access key, secret key and region, its header names
/// lower-cased on the way as HTTP servers read them: the signer and the
/// verifier agree on the canonical request. The conditions are those of
/// [`lemma_signed_headers_verify`].
pub proof fn lemma_signed_requests_verify(
    method: Seq<char>,
    path: Seq<char>,
    body: Seq<u8>,
    content_type: Seq<char>,
    host: Seq<char>,
    access_key: Seq<char>,
    secret_key: Seq<char>,
    region: Seq<char>,
    amz_date: Seq<char>,
    date_stamp: Seq<char>,
)
    requires
        free_of(path, '?'),
        free_of(access_key, '/') && free_of_comma_space(access_key),
        free_of(date_stamp, '/') && free_of_comma_space(date_stamp),
        free_of(region, '/') && free_of_comma_space(region),
        trim(host) == host,
        trim(amz_date) == amz_date,
        trim(content_type) == content_type,
    ensures
        ({
            let ph = hex_lower(sha256(body));
            let creq = client_canonical_request(method, path, content_type, host, ph, amz_date);
            let auth = client_authorization(
                access_key,
                secret_key,
                region,
                date_stamp,
                amz_date,
                content_type,
                creq,
            );
            spec_verify_request(
                method,
                path,
                None,
                received(client_headers(auth, amz_date, ph, host, content_type)),
                access_key,
                secret_key,
                region,
            ) == Ok::<(), crate::error::S3Error>(())
        }),
{
    let ph = hex_lower(sha256(body));
    let creq = client_canonical_request(method, path, content_type, host, ph, amz_date);
    let auth = client_authorization(access_key, secret_key, region, date_stamp, amz_date, content_type, creq);
    lemma_received_lookups(auth, amz_date, ph, host, content_type);
    lemma_signed_headers_verify(
        method,
        path,
        body,
        content_type,
        host,
        access_key,
        secret_key,
        region,
        amz_date,
        date_stamp,
        received(client_headers(auth, amz_date, ph, host, content_type)),
    );
}

/// Times and dates as the clock writes them (see
/// [`crate::clock::signature_stamps`]) hold no `/`, no `", "` and no
/// whitespace at either end.
pub proof fn lemma_stamps_are_plain(s: Seq<char>)
    requires
        stamp_text(s),
    ensures
        free_of(s, '/'),
        free_of_comma_space(s),
        trim(s) == s,
{
    assert forall|i: int| 0 <= i < s.len() implies !is_ws(#[trigger] s[i]) by {
        assert(stamp_char(s[i]));
    }
    lemma_trim_plain(s);
    assert forall|i: int| 0 <= i < s.len() implies s[i] != ',' && s[i] != '/' by {
        assert(stamp_char(s[i]));
    }
    lemma_no_comma_no_pair(s);
}

/// Whatever the clock read when signing: a request that the upstream target
/// signs with the time and date stamps that
/// [`crate::clock::signature_stamps`] gives passes the server's signature
/// check under the same access key, secret key and region, in whatever order
/// and with whatever other headers the server receives its headers, when
/// the path carries no query, the access key and region hold neither `/`
/// nor `", "`, and the host and content type have no surrounding whitespace.
pub proof fn lemma_clock_signed_requests_verify(
    method: Seq<char>,
    path: Seq<char>,
    body: Seq<u8>,
    content_type: Seq<char>,
    host: Seq<char>,
    access_key: Seq<char>,
    secret_key: Seq<char>,
    region: Seq<char>,
    amz_date: Seq<char>,
    date_stamp: Seq<char>,
    h: Seq<(Seq<char>, Seq<char>)>,
)
    requires
        free_of(path, '?'),
        free_of(access_key, '/') && free_of_comma_space(access_key),
        free_of(region, '/') && free_of_comma_space(region),
        stamp_text(amz_date),
        stamp_text(date_stamp),
        trim(host) == host,
        trim(content_type) == content_type,
        ({
            let ph = hex_lower(sha256(body));
            let creq = client_canonical_request(method, path, content_type, host, ph, amz_date);
            let auth = client_authorization(
                access_key,
                secret_key,
                region,
                date_stamp,
                amz_date,
                content_type,
                creq,
            );
            &&& header_lookup(h, "authorization"@) == Some(auth)
            &&& header_lookup(h, "x-amz-date"@) == Some(amz_date)
            &&& header_lookup(h, "x-amz-content-sha256"@) == Some(ph)
            &&& header_lookup(h, "host"@) == Some(host)
            &&& content_type.len() > 0 ==> header_lookup(h, "content-type"@) == Some(content_type)
        }),
    ensures
        spec_verify_request(method, path, None, h, access_key, secret_key, region) == Ok::<
            (),
            crate::error::S3Error,
        >(()),
{
    lemma_stamps_are_plain(amz_date);
    lemma_stamps_are_plain(date_stamp);
    lemma_signed_headers_verify(
        method,
        path,
        body,
        content_type,
        host,
        access_key,
        secret_key,
        region,
        amz_date,
        date_stamp,
        h,
    );
}

} // verus!
