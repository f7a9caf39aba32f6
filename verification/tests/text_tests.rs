use miniminio::clock::{iso_timestamp, signature_stamps};
use miniminio::codec::guess_content_type;
use miniminio::s3::normalize_key;
use miniminio::storage::upload_expired;
use miniminio::scan::{str_eq};
use miniminio::strmap::StrMap;
use miniminio::text::{copy_str, decimal_string, parse_i32, parse_u64, parse_usize};

#[test]
fn decimal_text_round_trips() {
    for n in [0u64, 7, 10, 99, 12345, u64::MAX] {
        assert_eq!(decimal_string(n), n.to_string());
        assert_eq!(parse_u64(&decimal_string(n)), Some(n));
    }
    assert_eq!(parse_u64("+12"), Some(12));
    assert_eq!(parse_u64("18446744073709551616"), None);
    assert_eq!(parse_u64(""), None);
    assert_eq!(parse_u64("+"), None);
    assert_eq!(parse_usize("42"), Some(42));
    assert_eq!(parse_i32("-2147483648"), Some(i32::MIN));
    assert_eq!(parse_i32("-2147483649"), None);
    assert_eq!(parse_i32("-"), None);
}

#[test]
fn string_map_keeps_last_value() {
    let mut m = StrMap::new();
    m.insert("b".into(), "1".into());
    m.insert("a".into(), "2".into());
    m.insert("b".into(), "3".into());
    assert_eq!(m.len(), 2);
    assert_eq!(m.entry(0), (&"a".to_string(), &"2".to_string()));
    assert_eq!(m.get("b"), Some("3".to_string()));
    let w = m.without("a");
    assert_eq!(w.len(), 1);
    assert_eq!(w.get("a"), None);
}

#[test]
fn outside_helpers() {
    assert_eq!(normalize_key("a%20b+c"), "a b+c");
    assert_eq!(guess_content_type("photo.png"), "image/png");
    assert_eq!(guess_content_type("noext"), "application/octet-stream");
    assert!(upload_expired("1970-01-01T00:00:01.5Z", (1, 500_000_001)));
    assert!(!upload_expired("1970-01-01T00:00:01.5Z", (1, 500_000_000)));
    assert!(upload_expired("1970-01-01T01:00:00+01:00", (1, 0)));
    assert!(!upload_expired("yesterday", (i64::MAX, 0)));
    assert_eq!(iso_timestamp(0, 250_000_000), Some("1970-01-01T00:00:00.250Z".to_string()));
    assert_eq!(
        signature_stamps(1367366400, 0),
        Some(("20130501T000000Z".to_string(), "20130501".to_string()))
    );
    assert!(str_eq("x", "x"));
    assert_eq!(copy_str("abc"), "abc");
}
