use miniminio::auth::{verify_request, verify_presigned, parse_auth_header, uri_encode, percent_encode_path,
    constant_time_eq, canonical_query_string, url_decode_params, derive_signing_key, hmac_hex,
    canonical_headers_string, header_value};
use miniminio::client::{UpstreamTarget, parse_host, client_endpoint, bucket_path, object_path};
use miniminio::error::S3Error;
use miniminio::routing::auth_exempt;

fn h(pairs: &[(&str, &str)]) -> Vec<(String, String)> {
    pairs.iter().map(|(a, b)| (a.to_string(), b.to_string())).collect()
}

const AK: &str = "SECRET-REDACTED";
const SK: &str = "wJalrXUtnFEMI/K7MDENG/bPxRfiCYEXAMPLEKEY";
const EMPTY_SHA: &str = "e3b0c44298fc1c149afbf4c8996fb92427ae41e4649b934ca495991b7852b855";

fn aws_example_headers(signature: &str) -> Vec<(String, String)> {
    let auth = format!(
        "AWS4-HMAC-SHA256 Credential={AK}/20130524/us-east-1/s3/aws4_request, SignedHeaders=host;range;x-amz-content-sha256;x-amz-date, Signature={signature}"
    );
    h(&[
        ("host", "examplebucket.s3.amazonaws.com"),
        ("range", "bytes=0-9"),
        ("x-amz-content-sha256", EMPTY_SHA),
        ("x-amz-date", "20130524T000000Z"),
        ("authorization", &auth),
    ])
}

#[test]
fn aws_get_object_example_verifies() {
    let headers = aws_example_headers("f0e8bdb87c964420e857bd35b5d6ed310bd44f0170aba48dd91039c6036bdb41");
    assert_eq!(verify_request("GET", "/test.txt", None, &headers, AK, SK, "us-east-1"), Ok(()));
}

#[test]
fn tampered_signature_is_rejected() {
    let headers = aws_example_headers("f0e8bdb87c964420e857bd35b5d6ed310bd44f0170aba48dd91039c6036bdb40");
    assert_eq!(
        verify_request("GET", "/test.txt", None, &headers, AK, SK, "us-east-1"),
        Err(S3Error::SignatureDoesNotMatch)
    );
}

#[test]
fn wrong_secret_is_rejected() {
    let headers = aws_example_headers("f0e8bdb87c964420e857bd35b5d6ed310bd44f0170aba48dd91039c6036bdb41");
    assert_eq!(
        verify_request("GET", "/test.txt", None, &headers, AK, "other", "us-east-1"),
        Err(S3Error::SignatureDoesNotMatch)
    );
}

#[test]
fn wrong_access_key_is_denied() {
    let headers = aws_example_headers("f0e8bdb87c964420e857bd35b5d6ed310bd44f0170aba48dd91039c6036bdb41");
    assert_eq!(
        verify_request("GET", "/test.txt", None, &headers, "SOMEONEELSE", SK, "us-east-1"),
        Err(S3Error::AccessDenied)
    );
}

#[test]
fn missing_authorization_is_rejected() {
    let headers = h(&[("host", "localhost")]);
    assert_eq!(
        verify_request("GET", "/", None, &headers, AK, SK, "us-east-1"),
        Err(S3Error::MissingSecurityHeader)
    );
    assert_eq!(
        verify_request("GET", "/", Some("a=b"), &headers, AK, SK, "us-east-1"),
        Err(S3Error::MissingSecurityHeader)
    );
}

#[test]
fn missing_date_header_is_rejected() {
    let auth = format!(
        "AWS4-HMAC-SHA256 Credential={AK}/20130524/us-east-1/s3/aws4_request, SignedHeaders=host, Signature=00"
    );
    let headers = h(&[("host", "x"), ("authorization", &auth)]);
    assert_eq!(
        verify_request("GET", "/", None, &headers, AK, SK, "us-east-1"),
        Err(S3Error::MissingSecurityHeader)
    );
}

#[test]
fn malformed_authorization_is_rejected() {
    assert!(matches!(parse_auth_header("Basic abc"), Err(S3Error::MissingSecurityHeader)));
    assert!(matches!(
        parse_auth_header("AWS4-HMAC-SHA256 Credential=a/b/c, SignedHeaders=host, Signature=x"),
        Err(S3Error::MissingSecurityHeader)
    ));
    assert!(matches!(
        parse_auth_header("AWS4-HMAC-SHA256 Credential=a/b/c/s3/aws4_request, Signature=x"),
        Err(S3Error::MissingSecurityHeader)
    ));
}

#[test]
fn authorization_fields_are_read() {
    let info = parse_auth_header(
        "AWS4-HMAC-SHA256 Credential=AK/20240101/eu-west-1/s3/aws4_request, SignedHeaders=host;x-amz-date, Signature=abc123",
    )
    .unwrap();
    assert_eq!(info.access_key, "AK");
    assert_eq!(info.date, "20240101");
    assert_eq!(info.region, "eu-west-1");
    assert_eq!(info.signed_headers, vec!["host".to_string(), "x-amz-date".to_string()]);
    assert_eq!(info.signature, "abc123");
}

#[test]
fn uri_encoding_keeps_unreserved_bytes() {
    assert_eq!(uri_encode("AZaz09-_.~"), "AZaz09-_.~");
    assert_eq!(uri_encode("a b/c"), "a%20b%2Fc");
    assert_eq!(uri_encode("é"), "%C3%A9");
}

#[test]
fn path_encoding_keeps_slashes() {
    assert_eq!(percent_encode_path(""), "/");
    assert_eq!(percent_encode_path("/"), "/");
    assert_eq!(percent_encode_path("/bucket/my file.txt"), "/bucket/my%20file.txt");
}

#[test]
fn constant_time_comparison() {
    assert!(constant_time_eq(b"abc", b"abc"));
    assert!(!constant_time_eq(b"abc", b"abd"));
    assert!(!constant_time_eq(b"abc", b"abcd"));
}

#[test]
fn canonical_query_sorts_and_encodes() {
    assert_eq!(canonical_query_string(None), "");
    assert_eq!(canonical_query_string(Some("b=2&a=1&c")), "a=1&b=2&c=");
    assert_eq!(canonical_query_string(Some("k=a b&k=last")), "k=last");
    assert_eq!(canonical_query_string(Some("&&x=%2F")), "x=%2F");
    assert_eq!(canonical_query_string(Some("k=a b")), "k=a%20b");
    assert_eq!(
        canonical_query_string(Some("prefix=a%2Fb&list-type=2&acl")),
        "acl=&list-type=2&prefix=a%2Fb"
    );
    assert_eq!(canonical_query_string(Some("prefix=a/b")), "prefix=a%2Fb");
}

#[test]
fn query_parameters_are_decoded() {
    let m = url_decode_params("X-Amz-Date=20240101&key=a%2Fb&flag");
    assert_eq!(m.get("key"), Some("a/b".to_string()));
    assert_eq!(m.get("flag"), Some(String::new()));
    assert_eq!(m.get("X-Amz-Date"), Some("20240101".to_string()));
    assert_eq!(m.get("missing"), None);
}

#[test]
fn signing_key_matches_known_value() {
    let key = derive_signing_key(SK, "20130524", "us-east-1");
    assert_eq!(key.len(), 32);
    let tag = hmac_hex(&key, b"");
    assert_eq!(tag.len(), 64);
}

#[test]
fn canonical_headers_trim_values() {
    let headers = h(&[("host", "  example.com "), ("x-amz-date", "20240101T000000Z")]);
    let names = vec!["host".to_string(), "x-amz-date".to_string(), "missing".to_string()];
    assert_eq!(
        canonical_headers_string(&headers, &names),
        "host:example.com\nx-amz-date:20240101T000000Z\nmissing:\n"
    );
    assert_eq!(header_value(&headers, "Host"), Some("  example.com ".to_string()));
}

#[test]
fn client_signed_request_verifies() {
    let target = UpstreamTarget::new("http://127.0.0.1:9000/", "AKID", "secret", "us-east-1");
    assert_eq!(target.host, "127.0.0.1:9000");
    assert_eq!(target.endpoint, "http://127.0.0.1:9000");
    for (content_type, body) in [("", &b""[..]), ("text/plain", &b"hello"[..])] {
        let req = target.sign("PUT", "/bucket/key.txt", body, content_type, "20240501T123000Z", "20240501");
        assert_eq!(req.url, "http://127.0.0.1:9000/bucket/key.txt");
        let received: Vec<(String, String)> =
            req.headers.iter().map(|(n, v)| (n.to_ascii_lowercase(), v.clone())).collect();
        assert_eq!(
            verify_request("PUT", "/bucket/key.txt", None, &received, "AKID", "secret", "us-east-1"),
            Ok(())
        );
        assert_eq!(
            verify_request("PUT", "/bucket/other.txt", None, &received, "AKID", "secret", "us-east-1"),
            Err(S3Error::SignatureDoesNotMatch)
        );
    }
}

#[test]
fn client_signed_request_with_comma_in_key_verifies() {
    let target = UpstreamTarget::new("http://127.0.0.1:9000", "AK,ID", "secret", "eu,west");
    let req = target.sign("GET", "/bucket", b"", "", "20240501T123000Z", "20240501");
    let received: Vec<(String, String)> =
        req.headers.iter().map(|(n, v)| (n.to_ascii_lowercase(), v.clone())).collect();
    assert_eq!(verify_request("GET", "/bucket", None, &received, "AK,ID", "secret", "eu,west"), Ok(()));
}

#[test]
fn client_headers_carry_payload_hash() {
    let target = UpstreamTarget::new("https://s3.example.com", "AKID", "secret", "us-east-1");
    let req = target.sign("GET", "/b", b"", "", "20240501T123000Z", "20240501");
    assert_eq!(req.headers[0].0, "Authorization");
    assert!(req.headers[0].1.starts_with(
        "AWS4-HMAC-SHA256 Credential=AKID/20240501/us-east-1/s3/aws4_request, SignedHeaders=host;x-amz-content-sha256;x-amz-date, Signature="
    ));
    assert_eq!(req.headers[2], ("x-amz-content-sha256".to_string(), EMPTY_SHA.to_string()));
    assert_eq!(req.headers[3], ("Host".to_string(), "s3.example.com".to_string()));
    assert_eq!(req.headers.len(), 4);
}

#[test]
fn presigned_url_verifies() {
    // Sign the presigned canonical request independently of the verifier.
    let date = "20240501";
    let amz = "20240501T000000Z";
    let cred = format!("AKID%2F{date}%2Fus-east-1%2Fs3%2Faws4_request");
    let query_wo_sig = format!(
        "X-Amz-Algorithm=AWS4-HMAC-SHA256&X-Amz-Credential={cred}&X-Amz-Date={amz}&X-Amz-SignedHeaders=host"
    );
    let creq = format!(
        "GET\n/b/k\n{}\nhost:localhost:9000\n\nhost\nUNSIGNED-PAYLOAD",
        canonical_query_string(Some(&query_wo_sig.replace("%2F", "/")))
    );
    let sig = miniminio::auth::sign_canonical_request("secret", date, "us-east-1", amz, &creq);
    let query = format!("{query_wo_sig}&X-Amz-Signature={sig}");
    let headers = h(&[("host", "localhost:9000")]);
    assert_eq!(verify_presigned("GET", "/b/k", Some(&query), &headers, "AKID", "secret", "us-east-1"), Ok(()));
    assert_eq!(verify_request("GET", "/b/k", Some(&query), &headers, "AKID", "secret", "us-east-1"), Ok(()));
    assert_eq!(
        verify_request("GET", "/b/k", Some(&query), &headers, "OTHER", "secret", "us-east-1"),
        Err(S3Error::AccessDenied)
    );
    assert_eq!(
        verify_presigned("GET", "/b/k", Some("X-Amz-Signature=1"), &headers, "AKID", "secret", "us-east-1"),
        Err(S3Error::MissingSecurityHeader)
    );
}

#[test]
fn host_is_read_from_endpoint() {
    assert_eq!(parse_host("https://s3.example.com/path"), "s3.example.com");
    assert_eq!(parse_host("http://minio:9000"), "minio:9000");
    assert_eq!(parse_host("plain-host/x"), "plain-host");
    assert_eq!(client_endpoint("http://h:1///"), "http://h:1");
    assert_eq!(bucket_path("b"), "/b");
    assert_eq!(object_path("b", "k/x"), "/b/k/x");
}

#[test]
fn ui_and_health_skip_auth() {
    assert!(auth_exempt("/ui"));
    assert!(auth_exempt("/ui/buckets"));
    assert!(auth_exempt("/health"));
    assert!(auth_exempt("/favicon.ico"));
    assert!(!auth_exempt("/bucket/key"));
    assert!(!auth_exempt("/healthz"));
    assert!(!auth_exempt("/uibucket"));
    assert!(!auth_exempt("/uibucket/key"));
    assert!(!auth_exempt("/ui-data/x"));
}

#[test]
fn clock_signed_request_verifies_in_any_header_order() {
    let (amz, date) = miniminio::clock::signature_stamps(1714566600, 0).unwrap();
    let target = UpstreamTarget::new("http://127.0.0.1:9000", "AKID", "secret", "us-east-1");
    let req = target.sign("PUT", "/bucket/k", b"data", "text/plain", &amz, &date);
    let mut received: Vec<(String, String)> =
        req.headers.iter().map(|(n, v)| (n.to_ascii_lowercase(), v.clone())).collect();
    received.reverse();
    received.push(("user-agent".to_string(), "reqwest".to_string()));
    received.push(("content-length".to_string(), "4".to_string()));
    assert_eq!(verify_request("PUT", "/bucket/k", None, &received, "AKID", "secret", "us-east-1"), Ok(()));
}
