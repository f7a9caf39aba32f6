use miniminio::error::S3Error;
use miniminio::order::sort_by_key_le;
use miniminio::storage::{
    bucket_dir_empty, check_part_order, etag_of, is_internal_name, key_from_meta_path, meta_file_name,
    new_object_metadata, part_file_names, upload_expired, uploads_of_bucket, validate_bucket_name,
    validate_key, BucketInfo, BucketStats, MultipartUpload, PartAssembly, PartInfo,
};
use miniminio::strmap::StrMap;

fn invalid_bucket(msg: &str) -> Result<(), S3Error> {
    Err(S3Error::InvalidBucketName(msg.to_string()))
}

#[test]
fn bucket_names_follow_the_rule() {
    assert_eq!(validate_bucket_name("my-bucket.01"), Ok(()));
    assert_eq!(validate_bucket_name("abc"), Ok(()));
    assert_eq!(validate_bucket_name(&"a".repeat(63)), Ok(()));
    assert_eq!(validate_bucket_name("ab"), invalid_bucket("Bucket name must be 3-63 characters"));
    assert_eq!(validate_bucket_name(&"a".repeat(64)), invalid_bucket("Bucket name must be 3-63 characters"));
    assert_eq!(
        validate_bucket_name("MyBucket"),
        invalid_bucket("Bucket name must contain only lowercase letters, numbers, hyphens, periods")
    );
    assert_eq!(validate_bucket_name("-abc"), invalid_bucket("Bucket name must start with letter or number"));
    assert_eq!(validate_bucket_name(".abc"), invalid_bucket("Bucket name must start with letter or number"));
    assert_eq!(validate_bucket_name("ab..c"), invalid_bucket("Invalid bucket name format"));
    // Three bytes, but two characters: counted in bytes.
    assert_eq!(
        validate_bucket_name("aé"),
        invalid_bucket("Bucket name must contain only lowercase letters, numbers, hyphens, periods")
    );
}

#[test]
fn object_keys_follow_the_rule() {
    let traversal = Err(S3Error::InvalidArgument("Invalid key: path traversal not allowed".to_string()));
    assert_eq!(validate_key("photos/2024/a.jpg"), Ok(()));
    assert_eq!(validate_key("a..b"), Ok(()));
    assert_eq!(validate_key(""), Err(S3Error::InvalidArgument("Key cannot be empty".to_string())));
    assert_eq!(validate_key(&"k".repeat(1025)), Err(S3Error::InvalidArgument("Key too long".to_string())));
    assert_eq!(validate_key(&"k".repeat(1024)), Ok(()));
    assert_eq!(validate_key("/etc/passwd"), traversal);
    assert_eq!(validate_key("../x"), traversal);
    assert_eq!(validate_key("a/../x"), traversal);
    assert_eq!(validate_key("./x"), traversal);
    assert_eq!(validate_key("a/.."), traversal);
}

#[test]
fn internal_names_start_with_a_dot() {
    assert!(is_internal_name(".miniminio"));
    assert!(is_internal_name(".multipart"));
    assert!(!is_internal_name("bucket"));
    assert!(!is_internal_name(""));
}

#[test]
fn etag_is_md5_hex() {
    assert_eq!(etag_of(b"hello"), "5d41402abc4b2a76b9719d911017c592");
    assert_eq!(etag_of(b""), "d41d8cd98f00b204e9800998ecf8427e");
}

#[test]
fn new_metadata_records_the_upload() {
    let mut um = StrMap::new();
    um.insert("color".to_string(), "blue".to_string());
    let m = new_object_metadata("k.txt", b"hello", "text/plain", "2024-01-01T00:00:00.000Z", um);
    assert_eq!(m.key, "k.txt");
    assert_eq!(m.size, 5);
    assert_eq!(m.etag, "5d41402abc4b2a76b9719d911017c592");
    assert_eq!(m.content_type, "text/plain");
    assert_eq!(m.last_modified, "2024-01-01T00:00:00.000Z");
    assert_eq!(m.user_metadata.get("color"), Some("blue".to_string()));
}

#[test]
fn part_order_must_ascend() {
    let ok = vec![(1, "a".to_string()), (2, "b".to_string()), (5, "c".to_string())];
    assert_eq!(check_part_order(&ok), Ok(()));
    let bad = vec![(1, "a".to_string()), (3, "b".to_string()), (3, "c".to_string())];
    assert_eq!(check_part_order(&bad), Err(S3Error::InvalidPartOrder));
    let down = vec![(2, "a".to_string()), (1, "b".to_string())];
    assert_eq!(check_part_order(&down), Err(S3Error::InvalidPartOrder));
    assert_eq!(check_part_order(&vec![]), Ok(()));
}

#[test]
fn multipart_etag_combines_part_digests() {
    let mut a = PartAssembly::new();
    a.add_part(b"part one");
    a.add_part(b"part two");
    assert_eq!(a.total_size(), 16);
    assert_eq!(a.etag(2), "0732917abc3288784e318ac0aab1757a-2");
}

#[test]
fn sorting_orders_keys_and_keeps_them() {
    let v = vec!["b/2".to_string(), "a".to_string(), "b/1".to_string(), "a".to_string(), "é".to_string(), "z".to_string()];
    let s = sort_by_key_le(v);
    assert_eq!(s, vec!["a", "a", "b/1", "b/2", "z", "é"]);
}

fn upload(id: &str, bucket: &str, initiated: &str) -> MultipartUpload {
    MultipartUpload {
        upload_id: id.to_string(),
        bucket: bucket.to_string(),
        key: "k".to_string(),
        initiated: initiated.to_string(),
    }
}

#[test]
fn uploads_are_filtered_and_ordered_by_start() {
    let all = vec![
        upload("1", "b", "2024-03-01T00:00:00.000Z"),
        upload("2", "other", "2024-01-01T00:00:00.000Z"),
        upload("3", "b", "2024-01-01T00:00:00.000Z"),
    ];
    let r = uploads_of_bucket(all, "b");
    let ids: Vec<&str> = r.iter().map(|u| u.upload_id.as_str()).collect();
    assert_eq!(ids, vec!["3", "1"]);
}

#[test]
fn buckets_and_parts_sort_by_their_keys() {
    let b = |n: &str| BucketInfo { name: n.to_string(), created: String::new() };
    let s = sort_by_key_le(vec![b("zeta"), b("alpha"), b("mid")]);
    let names: Vec<&str> = s.iter().map(|x| x.name.as_str()).collect();
    assert_eq!(names, vec!["alpha", "mid", "zeta"]);
    let p = |n: i32| PartInfo { part_number: n, size: 0, etag: String::new(), last_modified: String::new() };
    let s = sort_by_key_le(vec![p(3), p(-1), p(2)]);
    let nums: Vec<i32> = s.iter().map(|x| x.part_number).collect();
    assert_eq!(nums, vec![-1, 2, 3]);
}

#[test]
fn expiry_compares_start_with_cutoff() {
    // 2024-01-01T00:00:00Z is 1704067200 seconds after the epoch.
    assert!(upload_expired("2024-01-01T00:00:00.000Z", (1704067201, 0)));
    assert!(!upload_expired("2024-01-01T00:00:00.000Z", (1704067200, 0)));
    assert!(upload_expired("2024-01-01T00:00:00.000Z", (1704067200, 1)));
    assert!(!upload_expired("not a time", (i64::MAX, 0)));
}

#[test]
fn metadata_paths_give_keys_back() {
    assert_eq!(key_from_meta_path("photos/a.jpg.meta"), "photos/a.jpg");
    assert_eq!(key_from_meta_path("x.meta.meta"), "x.meta");
    assert_eq!(key_from_meta_path("plain"), "plain");
    assert_eq!(meta_file_name("photos/a.jpg"), "photos/a.jpg.meta");
    assert_eq!(part_file_names(7), ("7".to_string(), "7.meta".to_string()));
    assert_eq!(part_file_names(-2), ("-2".to_string(), "-2.meta".to_string()));
}

#[test]
fn bucket_directory_emptiness() {
    assert!(bucket_dir_empty(&vec![]));
    assert!(bucket_dir_empty(&vec![".miniminio".to_string()]));
    assert!(!bucket_dir_empty(&vec![".miniminio".to_string(), "k".to_string()]));
}

#[test]
fn stats_accumulate() {
    let mut s = BucketStats::default();
    s.record_object(Some(10));
    s.record_object(None);
    assert_eq!((s.object_count, s.total_size), (2, 10));
    let mut t = BucketStats::default();
    t.add(&s);
    t.add(&s);
    assert_eq!((t.object_count, t.total_size), (4, 20));
}

#[test]
fn fallback_bucket_record() {
    let b = BucketInfo::fallback("photos");
    assert_eq!(b.name, "photos");
    assert_eq!(b.created, "1970-01-01T00:00:00.000Z");
}

#[test]
fn metadata_name_round_trip_for_any_key() {
    for k in ["x.meta", "a/b.meta.meta", "plain", "dir/.meta"] {
        assert_eq!(key_from_meta_path(&meta_file_name(k)), k);
    }
}

#[test]
fn uploads_started_at_the_same_time_keep_their_order() {
    let t = "2024-03-01T00:00:00.000Z";
    let all = vec![
        upload("c", "b", t),
        upload("a", "b", "2024-04-01T00:00:00.000Z"),
        upload("b", "b", t),
        upload("d", "b", t),
    ];
    let s = sort_by_key_le(all);
    let ids: Vec<&str> = s.iter().map(|u| u.upload_id.as_str()).collect();
    assert_eq!(ids, vec!["c", "b", "d", "a"]);
}

#[test]
fn etags_have_their_shape() {
    let e = etag_of(b"hello");
    assert_eq!(e.len(), 32);
    assert!(e.chars().all(|c| c.is_ascii_digit() || ('a'..='f').contains(&c)));
    let mut a = PartAssembly::new();
    for _ in 0..12 {
        a.add_part(b"x");
    }
    let t = a.etag(12);
    assert_eq!(t.len(), 35);
    assert_eq!(&t[32..], "-12");
    assert!(t[..32].chars().all(|c| c.is_ascii_digit() || ('a'..='f').contains(&c)));
}

#[test]
fn completed_upload_metadata() {
    let mut a = PartAssembly::new();
    a.add_part(b"hello ");
    a.add_part(b"world");
    let m = a.completed_metadata("dir/obj", "text/plain", "2024-05-01T00:00:00.000Z", 2);
    assert_eq!(m.key, "dir/obj");
    assert_eq!(m.size, 11);
    assert_eq!(m.etag, a.etag(2));
    assert!(m.etag.ends_with("-2"));
    assert_eq!(m.content_type, "text/plain");
    assert_eq!(m.last_modified, "2024-05-01T00:00:00.000Z");
    assert_eq!(m.user_metadata.len(), 0);
}
