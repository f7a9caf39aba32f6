use miniminio::error::S3Error;
use miniminio::s3::{
    collect_user_metadata, content_range, is_list_v2, max_keys_param, normalize_key, parse_copy_source,
    parse_part_number, parse_range, quote_etag, unquote_etag,
};

#[test]
fn ranges_follow_the_header() {
    assert_eq!(parse_range("bytes=0-9", 100), Some((0, 9)));
    assert_eq!(parse_range("bytes=10-", 100), Some((10, 99)));
    assert_eq!(parse_range("bytes=-10", 100), Some((90, 99)));
    assert_eq!(parse_range("bytes=-200", 100), Some((0, 99)));
    assert_eq!(parse_range("bytes=50-500", 100), Some((50, 99)));
    assert_eq!(parse_range("bytes=100-", 100), None);
    assert_eq!(parse_range("bytes=60-50", 100), None);
    assert_eq!(parse_range("bytes=abc", 100), None);
    assert_eq!(parse_range("items=0-1", 100), None);
    assert_eq!(parse_range("bytes=x-1", 100), None);
    assert_eq!(parse_range("bytes=+5-+6", 100), Some((5, 6)));
    assert_eq!(parse_range("bytes=-0", 100), Some((100, 99)));
    assert_eq!(parse_range("bytes=-5", 0), None);
    assert_eq!(parse_range("bytes=0-10", 0), None);
    assert_eq!(parse_range("bytes=0-", 0), None);
    assert_eq!(parse_range("bytes=-0", 1), Some((1, 0)));
}

#[test]
fn content_range_and_etag_text() {
    assert_eq!(content_range(0, 9, 100), "bytes 0-9/100");
    assert_eq!(quote_etag("abc"), "\"abc\"");
    assert_eq!(unquote_etag("\"abc\""), "abc");
    assert_eq!(unquote_etag("\"\"a\"b\"\""), "a\"b");
    assert_eq!(unquote_etag("\"\""), "");
    assert_eq!(unquote_etag("plain"), "plain");
}

#[test]
fn keys_from_paths_are_decoded() {
    assert_eq!(normalize_key("/photos/my%20cat.jpg"), "photos/my cat.jpg");
    assert_eq!(normalize_key("a/b"), "a/b");
    assert_eq!(normalize_key("//x"), "/x");
    assert_eq!(normalize_key("%FF"), "\u{FFFD}");
}

#[test]
fn copy_sources_split_at_the_first_slash() {
    assert_eq!(parse_copy_source("/src/a/b.txt"), Ok(("src".to_string(), "a/b.txt".to_string())));
    assert_eq!(parse_copy_source("src/k"), Ok(("src".to_string(), "k".to_string())));
    assert_eq!(
        parse_copy_source("nokey"),
        Err(S3Error::InvalidArgument("Invalid copy source".to_string()))
    );
}

#[test]
fn part_numbers_are_integers() {
    assert_eq!(parse_part_number("3"), Ok(3));
    assert_eq!(parse_part_number("-1"), Ok(-1));
    assert_eq!(parse_part_number("2147483647"), Ok(i32::MAX));
    assert_eq!(
        parse_part_number("2147483648"),
        Err(S3Error::InvalidArgument("Invalid partNumber".to_string()))
    );
    assert_eq!(parse_part_number("x"), Err(S3Error::InvalidArgument("Invalid partNumber".to_string())));
}

#[test]
fn listing_parameters_have_defaults() {
    assert_eq!(max_keys_param(None), 1000);
    assert_eq!(max_keys_param(Some("5")), 5);
    assert_eq!(max_keys_param(Some("-5")), 1000);
    assert_eq!(max_keys_param(Some("")), 1000);
    assert!(is_list_v2(Some("2")));
    assert!(!is_list_v2(Some("1")));
    assert!(!is_list_v2(None));
}

#[test]
fn user_metadata_is_collected_from_headers() {
    let headers = vec![
        ("content-type".to_string(), "text/plain".to_string()),
        ("x-amz-meta-color".to_string(), "red".to_string()),
        ("x-amz-meta-size".to_string(), "L".to_string()),
        ("x-amz-meta-color".to_string(), "blue".to_string()),
    ];
    let m = collect_user_metadata(&headers);
    assert_eq!(m.len(), 2);
    assert_eq!(m.get("color"), Some("blue".to_string()));
    assert_eq!(m.get("size"), Some("L".to_string()));
    assert_eq!(m.get("content-type"), None);
}

#[test]
fn unquoting_a_quoted_etag_gives_it_back() {
    for e in ["d41d8cd98f00b204e9800998ecf8427e", "abc-3", ""] {
        assert_eq!(unquote_etag(&quote_etag(e)), e);
    }
}
