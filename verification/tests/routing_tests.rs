use miniminio::config::Config;
use miniminio::routing::{
    list_params, route_bucket_get, route_bucket_post, route_object_delete, route_object_get, route_object_post,
    route_object_put, BucketGet, ObjectPost, ObjectPut,
};
use miniminio::strmap::StrMap;

fn params(pairs: &[(&str, &str)]) -> StrMap {
    let mut m = StrMap::new();
    for (k, v) in pairs {
        m.insert(k.to_string(), v.to_string());
    }
    m
}

#[test]
fn bucket_requests_are_told_apart() {
    assert_eq!(route_bucket_get(&params(&[("location", "")])), BucketGet::Location);
    assert_eq!(route_bucket_get(&params(&[("uploads", ""), ("location", "")])), BucketGet::Location);
    assert_eq!(route_bucket_get(&params(&[("uploads", "")])), BucketGet::MultipartUploads);
    assert_eq!(route_bucket_get(&params(&[("prefix", "a")])), BucketGet::ListObjects);
    assert!(route_bucket_post(&params(&[("delete", "")])));
    assert!(!route_bucket_post(&params(&[])));
}

#[test]
fn listing_parameters() {
    let p = list_params(&params(&[("list-type", "2"), ("prefix", "a/"), ("max-keys", "10"), ("continuation-token", "t")]));
    assert!(p.v2);
    assert_eq!(p.prefix, "a/");
    assert_eq!(p.delimiter, "");
    assert_eq!(p.max_keys, 10);
    assert_eq!(p.start_after, "");
    assert_eq!(p.continuation_token, "t");
    let d = list_params(&params(&[("max-keys", "lots")]));
    assert!(!d.v2);
    assert_eq!(d.max_keys, 1000);
}

#[test]
fn object_requests_are_told_apart() {
    assert_eq!(route_object_get(&params(&[("uploadId", "u")])), Some("u".to_string()));
    assert_eq!(route_object_get(&params(&[])), None);
    assert_eq!(route_object_delete(&params(&[("uploadId", "u")])), Some("u".to_string()));
    assert!(matches!(
        route_object_put(&params(&[("uploadId", "u"), ("partNumber", "3")]), Some("/a/b")),
        ObjectPut::UploadPart(ref u, ref n) if u == "u" && n == "3"
    ));
    assert!(matches!(route_object_put(&params(&[("uploadId", "u")]), Some("/a/b")), ObjectPut::Copy(ref s) if s == "/a/b"));
    assert!(matches!(route_object_put(&params(&[]), None), ObjectPut::Put));
    assert!(matches!(route_object_post(&params(&[("uploads", "")])), ObjectPost::Initiate));
    assert!(matches!(route_object_post(&params(&[("uploadId", "u")])), ObjectPost::Complete(ref u) if u == "u"));
    assert!(matches!(route_object_post(&params(&[])), ObjectPost::NotAllowed));
}

#[test]
fn listen_address() {
    let c = Config {
        data_dir: "./data".into(),
        port: 9000,
        host: "0.0.0.0".into(),
        access_key: "minioadmin".into(),
        secret_key: "minioadmin".into(),
        region: "us-east-1".into(),
        multipart_expiry_hours: 24,
    };
    assert_eq!(c.listen_address(), "0.0.0.0:9000");
}
