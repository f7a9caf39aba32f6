use miniminio::error::{IoErrorKind, S3Error};
use miniminio::responses::{
    complete_xml, copy_result_xml, delete_result_xml, initiate_xml, list_buckets_xml, list_objects_xml,
    location_xml, parts_xml, uploads_xml,
};
use miniminio::storage::{BucketInfo, ListObjectsResult, MultipartUpload, ObjectMetadata, PartInfo};
use miniminio::strmap::StrMap;
use miniminio::xml::XmlWriter;

const DECL: &str = "<?xml version=\"1.0\" encoding=\"UTF-8\"?>";
const NS: &str = "xmlns=\"http://s3.amazonaws.com/doc/2006-03-01/\"";

#[test]
fn writer_escapes_text() {
    let mut w = XmlWriter::new();
    w.declaration().open_s3("R").elem("K", "a<b&c>\"d'").elem_bool("T", true).elem_u64("N", 42).elem_i32("M", -7);
    w.elem_opt("O", &None).elem_opt("P", &Some("x".to_string())).raw("<raw/>").close("R");
    assert_eq!(
        w.finish(),
        format!("{DECL}<R {NS}><K>a&lt;b&amp;c&gt;&quot;d&apos;</K><T>true</T><N>42</N><M>-7</M><P>x</P><raw/></R>")
    );
}

#[test]
fn errors_render_as_xml() {
    let e = S3Error::NoSuchKey("a.txt".to_string());
    assert_eq!(e.code(), "NoSuchKey");
    assert_eq!(e.status_code(), 404);
    assert_eq!(
        e.to_xml(),
        format!("{DECL}<Error><Code>NoSuchKey</Code><Message>The specified key does not exist: a.txt</Message></Error>")
    );
    assert_eq!(e.to_display_string(), "NoSuchKey: The specified key does not exist: a.txt");
}

#[test]
fn every_error_has_its_status() {
    let cases: Vec<(S3Error, u16, &str)> = vec![
        (S3Error::NoSuchBucket("b".into()), 404, "NoSuchBucket"),
        (S3Error::NoSuchUpload("u".into()), 404, "NoSuchUpload"),
        (S3Error::BucketAlreadyExists("b".into()), 409, "BucketAlreadyExists"),
        (S3Error::BucketNotEmpty("b".into()), 409, "BucketNotEmpty"),
        (S3Error::InvalidBucketName("b".into()), 400, "InvalidBucketName"),
        (S3Error::InvalidArgument("m".into()), 400, "InvalidArgument"),
        (S3Error::InvalidPart, 400, "InvalidPart"),
        (S3Error::InvalidPartOrder, 400, "InvalidPartOrder"),
        (S3Error::EntityTooLarge, 413, "EntityTooLarge"),
        (S3Error::AccessDenied, 403, "AccessDenied"),
        (S3Error::SignatureDoesNotMatch, 403, "SignatureDoesNotMatch"),
        (S3Error::MissingSecurityHeader, 403, "MissingSecurityHeader"),
        (S3Error::MethodNotAllowed, 405, "MethodNotAllowed"),
        (S3Error::InternalError("x".into()), 500, "InternalError"),
    ];
    for (e, status, code) in cases {
        assert_eq!(e.status_code(), status);
        assert_eq!(e.code(), code);
    }
    assert_eq!(S3Error::InternalError("disk".into()).message(), "Internal server error: disk");
    assert_eq!(S3Error::InvalidArgument("plain".into()).message(), "plain");
}

#[test]
fn io_errors_map_to_s3_errors() {
    assert_eq!(S3Error::from_io(IoErrorKind::NotFound, "x".into()), S3Error::NoSuchKey("unknown".into()));
    assert_eq!(S3Error::from_io(IoErrorKind::PermissionDenied, "x".into()), S3Error::AccessDenied);
    assert_eq!(S3Error::from_io(IoErrorKind::Other, "disk full".into()), S3Error::InternalError("disk full".into()));
}

#[test]
fn bucket_list_document() {
    let b = vec![BucketInfo { name: "a".into(), created: "2024-01-01T00:00:00.000Z".into() }];
    assert_eq!(
        list_buckets_xml(&b),
        format!("{DECL}<ListAllMyBucketsResult {NS}><Owner><ID>miniminio</ID><DisplayName>miniminio</DisplayName></Owner><Buckets><Bucket><Name>a</Name><CreationDate>2024-01-01T00:00:00.000Z</CreationDate></Bucket></Buckets></ListAllMyBucketsResult>")
    );
}

#[test]
fn object_list_document() {
    let r = ListObjectsResult {
        objects: vec![ObjectMetadata {
            key: "k&1".into(),
            size: 3,
            etag: "abc".into(),
            content_type: "text/plain".into(),
            last_modified: "T".into(),
            user_metadata: StrMap::new(),
        }],
        common_prefixes: vec!["dir/".into()],
        is_truncated: true,
        next_continuation_token: Some("k&1".into()),
    };
    assert_eq!(
        list_objects_xml("bkt", "", "/", 1, true, &r),
        format!("{DECL}<ListBucketResult {NS}><Name>bkt</Name><Prefix></Prefix><KeyCount>1</KeyCount><MaxKeys>1</MaxKeys><Delimiter>/</Delimiter><IsTruncated>true</IsTruncated><NextContinuationToken>k&amp;1</NextContinuationToken><Contents><Key>k&amp;1</Key><LastModified>T</LastModified><ETag>&quot;abc&quot;</ETag><Size>3</Size><StorageClass>STANDARD</StorageClass></Contents><CommonPrefixes><Prefix>dir/</Prefix></CommonPrefixes></ListBucketResult>")
    );
    let empty = ListObjectsResult { objects: vec![], common_prefixes: vec![], is_truncated: false, next_continuation_token: None };
    assert_eq!(
        list_objects_xml("bkt", "p", "", 1000, false, &empty),
        format!("{DECL}<ListBucketResult {NS}><Name>bkt</Name><Prefix>p</Prefix><MaxKeys>1000</MaxKeys><IsTruncated>false</IsTruncated></ListBucketResult>")
    );
}

#[test]
fn small_documents() {
    assert_eq!(location_xml("us-east-1"), format!("{DECL}<LocationConstraint {NS}>us-east-1</LocationConstraint>"));
    assert_eq!(
        initiate_xml("b", "k", "id"),
        format!("{DECL}<InitiateMultipartUploadResult {NS}><Bucket>b</Bucket><Key>k</Key><UploadId>id</UploadId></InitiateMultipartUploadResult>")
    );
    assert_eq!(
        complete_xml("b", "k/x", "e-2"),
        format!("{DECL}<CompleteMultipartUploadResult {NS}><Location>/b/k/x</Location><Bucket>b</Bucket><Key>k/x</Key><ETag>&quot;e-2&quot;</ETag></CompleteMultipartUploadResult>")
    );
    assert_eq!(
        copy_result_xml("T", "e"),
        format!("{DECL}<CopyObjectResult {NS}><LastModified>T</LastModified><ETag>&quot;e&quot;</ETag></CopyObjectResult>")
    );
}

#[test]
fn upload_and_part_lists() {
    let u = vec![MultipartUpload { upload_id: "id".into(), bucket: "b".into(), key: "k".into(), initiated: "T".into() }];
    let owner = "<ID>miniminio</ID><DisplayName>miniminio</DisplayName>";
    assert_eq!(
        uploads_xml("b", &u),
        format!("{DECL}<ListMultipartUploadsResult {NS}><Bucket>b</Bucket><Upload><Key>k</Key><UploadId>id</UploadId><Initiated>T</Initiated><Initiator>{owner}</Initiator><Owner>{owner}</Owner><StorageClass>STANDARD</StorageClass></Upload></ListMultipartUploadsResult>")
    );
    let p = vec![PartInfo { part_number: 2, size: 5, etag: "e".into(), last_modified: "T".into() }];
    assert_eq!(
        parts_xml("b", "k", "id", &p),
        format!("{DECL}<ListPartsResult {NS}><Bucket>b</Bucket><Key>k</Key><UploadId>id</UploadId><Part><PartNumber>2</PartNumber><ETag>&quot;e&quot;</ETag><Size>5</Size><LastModified>T</LastModified></Part></ListPartsResult>")
    );
}

#[test]
fn batch_delete_document() {
    let outcomes = vec![
        ("a".to_string(), None),
        ("b".to_string(), Some(S3Error::NoSuchBucket("x".into()))),
    ];
    assert_eq!(
        delete_result_xml(false, &outcomes),
        format!("{DECL}<DeleteResult {NS}><Deleted><Key>a</Key></Deleted><Error><Key>b</Key><Code>InternalError</Code><Message>NoSuchBucket: The specified bucket does not exist: x</Message></Error></DeleteResult>")
    );
    assert_eq!(
        delete_result_xml(true, &outcomes),
        format!("{DECL}<DeleteResult {NS}><Error><Key>b</Key><Code>InternalError</Code><Message>NoSuchBucket: The specified bucket does not exist: x</Message></Error></DeleteResult>")
    );
}
