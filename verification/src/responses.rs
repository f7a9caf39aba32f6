//! The XML documents that S3 requests are answered with.

use vstd::prelude::*;
use crate::xml::{XmlWriter, xml_declaration, open_tag, open_s3_tag, close_tag, elem_text, bool_text};
use crate::text::{dec_digits, dec_int};
use crate::error::{S3Error, spec_code, spec_message};
use crate::storage::{BucketInfo, ObjectMetadata, ListObjectsResult, MultipartUpload, PartInfo};
use crate::s3::{quoted, quote_etag};
use crate::text::sviews;
use crate::scan::lemma_flatten_new_step;

verus! {

/// The owner block that listings carry.
pub open spec fn owner_block(tag: Seq<char>) -> Seq<char> {
    open_tag(tag) + elem_text("ID"@, "miniminio"@) + elem_text("DisplayName"@, "miniminio"@)
        + close_tag(tag)
}

fn write_owner(w: &mut XmlWriter, tag: &str)
    ensures
        final(w)@ == old(w)@ + owner_block(tag@),
{
    w.open(tag).elem("ID", "miniminio").elem("DisplayName", "miniminio").close(tag);
}

// ---------------------------------------------------------------------------
// ListBuckets

pub open spec fn bucket_entry(b: BucketInfo) -> Seq<char> {
    open_tag("Bucket"@) + elem_text("Name"@, b.name@) + elem_text("CreationDate"@, b.created@)
        + close_tag("Bucket"@)
}

pub open spec fn bucket_entries(bs: Seq<BucketInfo>) -> Seq<char>
    decreases bs.len(),
{
    if bs.len() == 0 {
        Seq::empty()
    } else {
        bucket_entries(bs.drop_last()) + bucket_entry(bs.last())
    }
}

/// The answer to a ListBuckets request.
pub open spec fn spec_list_buckets_xml(bs: Seq<BucketInfo>) -> Seq<char> {
    xml_declaration() + open_s3_tag("ListAllMyBucketsResult"@) + owner_block("Owner"@) + open_tag(
        "Buckets"@,
    ) + bucket_entries(bs) + close_tag("Buckets"@) + close_tag("ListAllMyBucketsResult"@)
}

/// The answer to a ListBuckets request.
pub fn list_buckets_xml(buckets: &Vec<BucketInfo>) -> (r: String)
    ensures
        r@ == spec_list_buckets_xml(buckets@),
{
    let mut w = XmlWriter::new();
    w.declaration().open_s3("ListAllMyBucketsResult");
    write_owner(&mut w, "Owner");
    w.open("Buckets");
    let ghost head = w@;
    let mut i: usize = 0;
    while i < buckets.len()
        invariant
            i <= buckets.len(),
            w@ == head + bucket_entries(buckets@.take(i as int)),
        decreases buckets.len() - i,
    {
        assert(buckets@.take(i + 1).drop_last() =~= buckets@.take(i as int));
        let b = &buckets[i];
        w.open("Bucket").elem("Name", b.name.as_str()).elem("CreationDate", b.created.as_str()).close(
            "Bucket",
        );
        i = i + 1;
    }
    assert(buckets@.take(buckets.len() as int) =~= buckets@);
    w.close("Buckets").close("ListAllMyBucketsResult");
    w.finish()
}

// ---------------------------------------------------------------------------
// ListObjects

pub open spec fn object_entry(o: ObjectMetadata) -> Seq<char> {
    open_tag("Contents"@) + elem_text("Key"@, o.key@) + elem_text("LastModified"@, o.last_modified@)
        + elem_text("ETag"@, quoted(o.etag@)) + elem_text("Size"@, dec_digits(o.size as nat))
        + elem_text("StorageClass"@, "STANDARD"@) + close_tag("Contents"@)
}

pub open spec fn object_entries(os: Seq<ObjectMetadata>) -> Seq<char>
    decreases os.len(),
{
    if os.len() == 0 {
        Seq::empty()
    } else {
        object_entries(os.drop_last()) + object_entry(os.last())
    }
}

pub open spec fn prefix_entries(ps: Seq<Seq<char>>) -> Seq<char>
    decreases ps.len(),
{
    if ps.len() == 0 {
        Seq::empty()
    } else {
        prefix_entries(ps.drop_last()) + open_tag("CommonPrefixes"@) + elem_text("Prefix"@, ps.last())
            + close_tag("CommonPrefixes"@)
    }
}

fn write_object_entry(w: &mut XmlWriter, o: &ObjectMetadata)
    ensures
        final(w)@ == old(w)@ + object_entry(*o),
{
    w.open("Contents");
    w.elem("Key", o.key.as_str());
    w.elem("LastModified", o.last_modified.as_str());
    let q = quote_etag(o.etag.as_str());
    w.elem("ETag", q.as_str());
    w.elem_u64("Size", o.size);
    w.elem("StorageClass", "STANDARD");
    w.close("Contents");
}

/// The answer to a ListObjects request: the first version of the format, or
/// the second (which adds `KeyCount`).
pub open spec fn spec_list_objects_xml(
    bucket: Seq<char>,
    prefix: Seq<char>,
    delimiter: Seq<char>,
    max_keys: nat,
    v2: bool,
    r: ListObjectsResult,
) -> Seq<char> {
    xml_declaration() + open_s3_tag("ListBucketResult"@) + elem_text("Name"@, bucket) + elem_text(
        "Prefix"@,
        prefix,
    ) + (if v2 {
        elem_text("KeyCount"@, dec_digits(r.objects@.len()))
    } else {
        Seq::empty()
    }) + elem_text("MaxKeys"@, dec_digits(max_keys)) + (if delimiter.len() > 0 {
        elem_text("Delimiter"@, delimiter)
    } else {
        Seq::empty()
    }) + elem_text("IsTruncated"@, bool_text(r.is_truncated)) + (match r.next_continuation_token {
        Some(t) => elem_text("NextContinuationToken"@, t@),
        None => Seq::empty(),
    }) + object_entries(r.objects@) + prefix_entries(sviews(r.common_prefixes@)) + close_tag(
        "ListBucketResult"@,
    )
}

/// The answer to a ListObjects request.
pub fn list_objects_xml(
    bucket: &str,
    prefix: &str,
    delimiter: &str,
    max_keys: usize,
    v2: bool,
    result: &ListObjectsResult,
) -> (r: String)
    ensures
        r@ == spec_list_objects_xml(bucket@, prefix@, delimiter@, max_keys as nat, v2, *result),
{
    let mut w = XmlWriter::new();
    w.declaration().open_s3("ListBucketResult");
    w.elem("Name", bucket);
    w.elem("Prefix", prefix);
    let ghost a = w@;
    if v2 {
        w.elem_u64("KeyCount", result.objects.len() as u64);
    }
    let ghost b = w@;
    assert(b == a + (if v2 {
        elem_text("KeyCount"@, dec_digits(result.objects@.len()))
    } else {
        Seq::empty()
    }));
    w.elem_u64("MaxKeys", max_keys as u64);
    let ghost c = w@;
    if crate::text::chars_of(delimiter).len() > 0 {
        w.elem("Delimiter", delimiter);
    }
    let ghost d = w@;
    w.elem_bool("IsTruncated", result.is_truncated);
    w.elem_opt("NextContinuationToken", &result.next_continuation_token);
    let ghost head = w@;
    assert(head == b + elem_text("MaxKeys"@, dec_digits(max_keys as nat)) + (if delimiter@.len() > 0 {
        elem_text("Delimiter"@, delimiter@)
    } else {
        Seq::empty()
    }) + elem_text("IsTruncated"@, bool_text(result.is_truncated)) + (match result.next_continuation_token {
        Some(t) => elem_text("NextContinuationToken"@, t@),
        None => Seq::empty(),
    }));
    let mut i: usize = 0;
    while i < result.objects.len()
        invariant
            i <= result.objects.len(),
            w@ == head + object_entries(result.objects@.take(i as int)),
        decreases result.objects.len() - i,
    {
        assert(result.objects@.take(i + 1).drop_last() =~= result.objects@.take(i as int));
        write_object_entry(&mut w, &result.objects[i]);
        i = i + 1;
    }
    assert(result.objects@.take(result.objects.len() as int) =~= result.objects@);
    let ghost mid = w@;
    let ghost ps = sviews(result.common_prefixes@);
    let mut j: usize = 0;
    while j < result.common_prefixes.len()
        invariant
            j <= result.common_prefixes.len(),
            ps == sviews(result.common_prefixes@),
            w@ == mid + prefix_entries(ps.take(j as int)),
        decreases result.common_prefixes.len() - j,
    {
        assert(ps.take(j + 1).drop_last() =~= ps.take(j as int));
        w.open("CommonPrefixes").elem("Prefix", result.common_prefixes[j].as_str()).close(
            "CommonPrefixes",
        );
        j = j + 1;
    }
    assert(ps.take(result.common_prefixes.len() as int) =~= ps);
    w.close("ListBucketResult");
    w.finish()
}

// ---------------------------------------------------------------------------
// Single-element answers

/// The answer to a GetBucketLocation request: the region, written as it is.
pub open spec fn spec_location_xml(region: Seq<char>) -> Seq<char> {
    xml_declaration() + open_s3_tag("LocationConstraint"@) + region + close_tag("LocationConstraint"@)
}

/// The answer to a GetBucketLocation request.
pub fn location_xml(region: &str) -> (r: String)
    ensures
        r@ == spec_location_xml(region@),
{
    let mut w = XmlWriter::new();
    w.declaration().open_s3("LocationConstraint").raw(region).close("LocationConstraint");
    w.finish()
}

/// The answer to a CreateMultipartUpload request.
pub open spec fn spec_initiate_xml(bucket: Seq<char>, key: Seq<char>, upload_id: Seq<char>) -> Seq<char> {
    xml_declaration() + open_s3_tag("InitiateMultipartUploadResult"@) + elem_text("Bucket"@, bucket)
        + elem_text("Key"@, key) + elem_text("UploadId"@, upload_id) + close_tag(
        "InitiateMultipartUploadResult"@,
    )
}

/// The answer to a CreateMultipartUpload request.
pub fn initiate_xml(bucket: &str, key: &str, upload_id: &str) -> (r: String)
    ensures
        r@ == spec_initiate_xml(bucket@, key@, upload_id@),
{
    let mut w = XmlWriter::new();
    w.declaration().open_s3("InitiateMultipartUploadResult").elem("Bucket", bucket).elem(
        "Key",
        key,
    ).elem("UploadId", upload_id).close("InitiateMultipartUploadResult");
    w.finish()
}

/// The location of an object: `/bucket/key`.
pub open spec fn object_location(bucket: Seq<char>, key: Seq<char>) -> Seq<char> {
    "/"@ + bucket + "/"@ + key
}

/// The answer to a CompleteMultipartUpload request.
pub open spec fn spec_complete_xml(bucket: Seq<char>, key: Seq<char>, etag: Seq<char>) -> Seq<char> {
    xml_declaration() + open_s3_tag("CompleteMultipartUploadResult"@) + elem_text(
        "Location"@,
        object_location(bucket, key),
    ) + elem_text("Bucket"@, bucket) + elem_text("Key"@, key) + elem_text("ETag"@, quoted(etag))
        + close_tag("CompleteMultipartUploadResult"@)
}

/// The answer to a CompleteMultipartUpload request.
pub fn complete_xml(bucket: &str, key: &str, etag: &str) -> (r: String)
    ensures
        r@ == spec_complete_xml(bucket@, key@, etag@),
{
    let mut loc = crate::text::copy_str("/");
    crate::text::push_str(&mut loc, bucket);
    crate::text::push_str(&mut loc, "/");
    crate::text::push_str(&mut loc, key);
    let q = quote_etag(etag);
    let mut w = XmlWriter::new();
    w.declaration().open_s3("CompleteMultipartUploadResult").elem("Location", loc.as_str()).elem(
        "Bucket",
        bucket,
    ).elem("Key", key).elem("ETag", q.as_str()).close("CompleteMultipartUploadResult");
    w.finish()
}

/// The answer to a CopyObject request.
pub open spec fn spec_copy_result_xml(last_modified: Seq<char>, etag: Seq<char>) -> Seq<char> {
    xml_declaration() + open_s3_tag("CopyObjectResult"@) + elem_text("LastModified"@, last_modified)
        + elem_text("ETag"@, quoted(etag)) + close_tag("CopyObjectResult"@)
}

/// The answer to a CopyObject request.
pub fn copy_result_xml(last_modified: &str, etag: &str) -> (r: String)
    ensures
        r@ == spec_copy_result_xml(last_modified@, etag@),
{
    let q = quote_etag(etag);
    let mut w = XmlWriter::new();
    w.declaration().open_s3("CopyObjectResult").elem("LastModified", last_modified).elem(
        "ETag",
        q.as_str(),
    ).close("CopyObjectResult");
    w.finish()
}

// ---------------------------------------------------------------------------
// ListMultipartUploads

pub open spec fn upload_entry(u: MultipartUpload) -> Seq<char> {
    open_tag("Upload"@) + elem_text("Key"@, u.key@) + elem_text("UploadId"@, u.upload_id@) + elem_text(
        "Initiated"@,
        u.initiated@,
    ) + owner_block("Initiator"@) + owner_block("Owner"@) + elem_text("StorageClass"@, "STANDARD"@)
        + close_tag("Upload"@)
}

pub open spec fn upload_entries(us: Seq<MultipartUpload>) -> Seq<char>
    decreases us.len(),
{
    if us.len() == 0 {
        Seq::empty()
    } else {
        upload_entries(us.drop_last()) + upload_entry(us.last())
    }
}

/// The answer to a ListMultipartUploads request.
pub open spec fn spec_uploads_xml(bucket: Seq<char>, us: Seq<MultipartUpload>) -> Seq<char> {
    xml_declaration() + open_s3_tag("ListMultipartUploadsResult"@) + elem_text("Bucket"@, bucket)
        + upload_entries(us) + close_tag("ListMultipartUploadsResult"@)
}

fn write_upload_entry(w: &mut XmlWriter, u: &MultipartUpload)
    ensures
        final(w)@ == old(w)@ + upload_entry(*u),
{
    w.open("Upload");
    w.elem("Key", u.key.as_str());
    w.elem("UploadId", u.upload_id.as_str());
    w.elem("Initiated", u.initiated.as_str());
    write_owner(w, "Initiator");
    write_owner(w, "Owner");
    w.elem("StorageClass", "STANDARD");
    w.close("Upload");
}

/// The answer to a ListMultipartUploads request.
pub fn uploads_xml(bucket: &str, uploads: &Vec<MultipartUpload>) -> (r: String)
    ensures
        r@ == spec_uploads_xml(bucket@, uploads@),
{
    let mut w = XmlWriter::new();
    w.declaration().open_s3("ListMultipartUploadsResult");
    w.elem("Bucket", bucket);
    let ghost head = w@;
    let mut i: usize = 0;
    while i < uploads.len()
        invariant
            i <= uploads.len(),
            w@ == head + upload_entries(uploads@.take(i as int)),
        decreases uploads.len() - i,
    {
        assert(uploads@.take(i + 1).drop_last() =~= uploads@.take(i as int));
        write_upload_entry(&mut w, &uploads[i]);
        i = i + 1;
    }
    assert(uploads@.take(uploads.len() as int) =~= uploads@);
    w.close("ListMultipartUploadsResult");
    w.finish()
}

// ---------------------------------------------------------------------------
// ListParts

pub open spec fn part_entry(p: PartInfo) -> Seq<char> {
    open_tag("Part"@) + elem_text("PartNumber"@, dec_int(p.part_number as int)) + elem_text(
        "ETag"@,
        quoted(p.etag@),
    ) + elem_text("Size"@, dec_digits(p.size as nat)) + elem_text("LastModified"@, p.last_modified@)
        + close_tag("Part"@)
}

pub open spec fn part_entries(ps: Seq<PartInfo>) -> Seq<char>
    decreases ps.len(),
{
    if ps.len() == 0 {
        Seq::empty()
    } else {
        part_entries(ps.drop_last()) + part_entry(ps.last())
    }
}

/// The answer to a ListParts request.
pub open spec fn spec_parts_xml(
    bucket: Seq<char>,
    key: Seq<char>,
    upload_id: Seq<char>,
    ps: Seq<PartInfo>,
) -> Seq<char> {
    xml_declaration() + open_s3_tag("ListPartsResult"@) + elem_text("Bucket"@, bucket) + elem_text(
        "Key"@,
        key,
    ) + elem_text("UploadId"@, upload_id) + part_entries(ps) + close_tag("ListPartsResult"@)
}

fn write_part_entry(w: &mut XmlWriter, p: &PartInfo)
    ensures
        final(w)@ == old(w)@ + part_entry(*p),
{
    w.open("Part");
    w.elem_i32("PartNumber", p.part_number);
    let q = quote_etag(p.etag.as_str());
    w.elem("ETag", q.as_str());
    w.elem_u64("Size", p.size);
    w.elem("LastModified", p.last_modified.as_str());
    w.close("Part");
}

/// The answer to a ListParts request.
pub fn parts_xml(bucket: &str, key: &str, upload_id: &str, parts: &Vec<PartInfo>) -> (r: String)
    ensures
        r@ == spec_parts_xml(bucket@, key@, upload_id@, parts@),
{
    let mut w = XmlWriter::new();
    w.declaration().open_s3("ListPartsResult");
    w.elem("Bucket", bucket);
    w.elem("Key", key);
    w.elem("UploadId", upload_id);
    let ghost head = w@;
    let mut i: usize = 0;
    while i < parts.len()
        invariant
            i <= parts.len(),
            w@ == head + part_entries(parts@.take(i as int)),
        decreases parts.len() - i,
    {
        assert(parts@.take(i + 1).drop_last() =~= parts@.take(i as int));
        write_part_entry(&mut w, &parts[i]);
        i = i + 1;
    }
    assert(parts@.take(parts.len() as int) =~= parts@);
    w.close("ListPartsResult");
    w.finish()
}

// ---------------------------------------------------------------------------
// DeleteObjects

/// The error text of an error: its code, `: ` and its message.
pub open spec fn error_text(e: S3Error) -> Seq<char> {
    spec_code(e) + ": "@ + spec_message(e)
}

/// The entry for one key of a batch delete: `Deleted` (left out when the
/// request asked to be quiet) or `Error` with the failure's text.
pub open spec fn delete_entry(quiet: bool, key: Seq<char>, outcome: Option<S3Error>) -> Seq<char> {
    match outcome {
        None => if quiet {
            Seq::empty()
        } else {
            open_tag("Deleted"@) + elem_text("Key"@, key) + close_tag("Deleted"@)
        },
        Some(e) => open_tag("Error"@) + elem_text("Key"@, key) + elem_text("Code"@, "InternalError"@)
            + elem_text("Message"@, error_text(e)) + close_tag("Error"@),
    }
}

pub open spec fn delete_entries(quiet: bool, os: Seq<(String, Option<S3Error>)>) -> Seq<char>
    decreases os.len(),
{
    if os.len() == 0 {
        Seq::empty()
    } else {
        delete_entries(quiet, os.drop_last()) + delete_entry(quiet, os.last().0@, os.last().1)
    }
}

/// The answer to a DeleteObjects request, given the outcome for each key in
/// request order (`None` for a deleted key).
pub open spec fn spec_delete_result_xml(quiet: bool, os: Seq<(String, Option<S3Error>)>) -> Seq<char> {
    xml_declaration() + open_s3_tag("DeleteResult"@) + delete_entries(quiet, os) + close_tag(
        "DeleteResult"@,
    )
}

fn write_delete_entry(w: &mut XmlWriter, quiet: bool, key: &str, outcome: &Option<S3Error>)
    ensures
        final(w)@ == old(w)@ + delete_entry(quiet, key@, *outcome),
{
    match outcome {
        None => {
            if !quiet {
                w.open("Deleted").elem("Key", key).close("Deleted");
            }
        },
        Some(e) => {
            let text = e.to_display_string();
            w.open("Error").elem("Key", key).elem("Code", "InternalError").elem(
                "Message",
                text.as_str(),
            ).close("Error");
        },
    }
}

/// The answer to a DeleteObjects request.
pub fn delete_result_xml(quiet: bool, outcomes: &Vec<(String, Option<S3Error>)>) -> (r: String)
    ensures
        r@ == spec_delete_result_xml(quiet, outcomes@),
{
    let mut w = XmlWriter::new();
    w.declaration().open_s3("DeleteResult");
    let ghost head = w@;
    let mut i: usize = 0;
    while i < outcomes.len()
        invariant
            i <= outcomes.len(),
            w@ == head + delete_entries(quiet, outcomes@.take(i as int)),
        decreases outcomes.len() - i,
    {
        assert(outcomes@.take(i + 1).drop_last() =~= outcomes@.take(i as int));
        write_delete_entry(&mut w, quiet, outcomes[i].0.as_str(), &outcomes[i].1);
        i = i + 1;
    }
    assert(outcomes@.take(outcomes.len() as int) =~= outcomes@);
    w.close("DeleteResult");
    w.finish()
}

// ---------------------------------------------------------------------------
// Order of the listed entries

/// The bucket entries: the element for `xs[i]` at place `i`.
pub open spec fn bucket_elements(xs: Seq<BucketInfo>) -> Seq<char> {
    Seq::new(xs.len(), |i: int| open_tag("Bucket"@) + elem_text("Name"@, xs[i].name@) + elem_text("CreationDate"@, xs[i].created@) + close_tag("Bucket"@)).flatten()
}

proof fn lemma_bucket_entries_in_order(xs: Seq<BucketInfo>)
    ensures
        bucket_entries(xs) == bucket_elements(xs),
    decreases xs.len(),
{
    reveal_strlit("\"");
    if xs.len() > 0 {
        let xd = xs.drop_last();
        lemma_bucket_entries_in_order(xd);
        let g = |i: int| open_tag("Bucket"@) + elem_text("Name"@, xs[i].name@) + elem_text("CreationDate"@, xs[i].created@) + close_tag("Bucket"@);
        let gd = |i: int| open_tag("Bucket"@) + elem_text("Name"@, xd[i].name@) + elem_text("CreationDate"@, xd[i].created@) + close_tag("Bucket"@);
        lemma_flatten_new_step(xs.len(), g);
        assert(Seq::new(xd.len(), g) =~= Seq::new(xd.len(), gd));
        assert(bucket_entries(xs) =~= bucket_entries(xd) + g(xs.len() - 1));
    }
}

/// The object entries: the element for `xs[i]` at place `i`.
pub open spec fn object_elements(xs: Seq<ObjectMetadata>) -> Seq<char> {
    Seq::new(xs.len(), |i: int| open_tag("Contents"@) + elem_text("Key"@, xs[i].key@) + elem_text("LastModified"@, xs[i].last_modified@) + elem_text("ETag"@, "\""@ + xs[i].etag@ + "\""@) + elem_text("Size"@, dec_digits(xs[i].size as nat)) + elem_text("StorageClass"@, "STANDARD"@) + close_tag("Contents"@)).flatten()
}

proof fn lemma_object_entries_in_order(xs: Seq<ObjectMetadata>)
    ensures
        object_entries(xs) == object_elements(xs),
    decreases xs.len(),
{
    reveal_strlit("\"");
    if xs.len() > 0 {
        let xd = xs.drop_last();
        lemma_object_entries_in_order(xd);
        let g = |i: int| open_tag("Contents"@) + elem_text("Key"@, xs[i].key@) + elem_text("LastModified"@, xs[i].last_modified@) + elem_text("ETag"@, "\""@ + xs[i].etag@ + "\""@) + elem_text("Size"@, dec_digits(xs[i].size as nat)) + elem_text("StorageClass"@, "STANDARD"@) + close_tag("Contents"@);
        let gd = |i: int| open_tag("Contents"@) + elem_text("Key"@, xd[i].key@) + elem_text("LastModified"@, xd[i].last_modified@) + elem_text("ETag"@, "\""@ + xd[i].etag@ + "\""@) + elem_text("Size"@, dec_digits(xd[i].size as nat)) + elem_text("StorageClass"@, "STANDARD"@) + close_tag("Contents"@);
        lemma_flatten_new_step(xs.len(), g);
        assert(Seq::new(xd.len(), g) =~= Seq::new(xd.len(), gd));
        assert(object_entries(xs) =~= object_entries(xd) + g(xs.len() - 1));
    }
}

/// The prefix entries: the element for `xs[i]` at place `i`.
pub open spec fn prefix_elements(xs: Seq<Seq<char>>) -> Seq<char> {
    Seq::new(xs.len(), |i: int| open_tag("CommonPrefixes"@) + elem_text("Prefix"@, xs[i]) + close_tag("CommonPrefixes"@)).flatten()
}

proof fn lemma_prefix_entries_in_order(xs: Seq<Seq<char>>)
    ensures
        prefix_entries(xs) == prefix_elements(xs),
    decreases xs.len(),
{
    reveal_strlit("\"");
    if xs.len() > 0 {
        let xd = xs.drop_last();
        lemma_prefix_entries_in_order(xd);
        let g = |i: int| open_tag("CommonPrefixes"@) + elem_text("Prefix"@, xs[i]) + close_tag("CommonPrefixes"@);
        let gd = |i: int| open_tag("CommonPrefixes"@) + elem_text("Prefix"@, xd[i]) + close_tag("CommonPrefixes"@);
        lemma_flatten_new_step(xs.len(), g);
        assert(Seq::new(xd.len(), g) =~= Seq::new(xd.len(), gd));
        assert(prefix_entries(xs) =~= prefix_entries(xd) + g(xs.len() - 1));
    }
}

/// The upload entries: the element for `xs[i]` at place `i`.
pub open spec fn upload_elements(xs: Seq<MultipartUpload>) -> Seq<char> {
    Seq::new(xs.len(), |i: int| open_tag("Upload"@) + elem_text("Key"@, xs[i].key@) + elem_text("UploadId"@, xs[i].upload_id@) + elem_text("Initiated"@, xs[i].initiated@) + open_tag("Initiator"@) + elem_text("ID"@, "miniminio"@) + elem_text("DisplayName"@, "miniminio"@) + close_tag("Initiator"@) + open_tag("Owner"@) + elem_text("ID"@, "miniminio"@) + elem_text("DisplayName"@, "miniminio"@) + close_tag("Owner"@) + elem_text("StorageClass"@, "STANDARD"@) + close_tag("Upload"@)).flatten()
}

#[verifier::rlimit(40)]
proof fn lemma_upload_entries_in_order(xs: Seq<MultipartUpload>)
    ensures
        upload_entries(xs) == upload_elements(xs),
    decreases xs.len(),
{
    reveal_strlit("\"");
    if xs.len() > 0 {
        let xd = xs.drop_last();
        lemma_upload_entries_in_order(xd);
        let g = |i: int| open_tag("Upload"@) + elem_text("Key"@, xs[i].key@) + elem_text("UploadId"@, xs[i].upload_id@) + elem_text("Initiated"@, xs[i].initiated@) + open_tag("Initiator"@) + elem_text("ID"@, "miniminio"@) + elem_text("DisplayName"@, "miniminio"@) + close_tag("Initiator"@) + open_tag("Owner"@) + elem_text("ID"@, "miniminio"@) + elem_text("DisplayName"@, "miniminio"@) + close_tag("Owner"@) + elem_text("StorageClass"@, "STANDARD"@) + close_tag("Upload"@);
        let gd = |i: int| open_tag("Upload"@) + elem_text("Key"@, xd[i].key@) + elem_text("UploadId"@, xd[i].upload_id@) + elem_text("Initiated"@, xd[i].initiated@) + open_tag("Initiator"@) + elem_text("ID"@, "miniminio"@) + elem_text("DisplayName"@, "miniminio"@) + close_tag("Initiator"@) + open_tag("Owner"@) + elem_text("ID"@, "miniminio"@) + elem_text("DisplayName"@, "miniminio"@) + close_tag("Owner"@) + elem_text("StorageClass"@, "STANDARD"@) + close_tag("Upload"@);
        lemma_flatten_new_step(xs.len(), g);
        assert(Seq::new(xd.len(), g) =~= Seq::new(xd.len(), gd));
        assert(upload_entries(xs) == upload_entries(xd) + upload_entry(xs.last()));
        assert(upload_entry(xs.last()) == g(xs.len() - 1)) by {
            assert(xs.last() == xs[xs.len() - 1]);
        }
    }
}

/// The part entries: the element for `xs[i]` at place `i`.
pub open spec fn part_elements(xs: Seq<PartInfo>) -> Seq<char> {
    Seq::new(xs.len(), |i: int| open_tag("Part"@) + elem_text("PartNumber"@, dec_int(xs[i].part_number as int)) + elem_text("ETag"@, "\""@ + xs[i].etag@ + "\""@) + elem_text("Size"@, dec_digits(xs[i].size as nat)) + elem_text("LastModified"@, xs[i].last_modified@) + close_tag("Part"@)).flatten()
}

proof fn lemma_part_entries_in_order(xs: Seq<PartInfo>)
    ensures
        part_entries(xs) == part_elements(xs),
    decreases xs.len(),
{
    reveal_strlit("\"");
    if xs.len() > 0 {
        let xd = xs.drop_last();
        lemma_part_entries_in_order(xd);
        let g = |i: int| open_tag("Part"@) + elem_text("PartNumber"@, dec_int(xs[i].part_number as int)) + elem_text("ETag"@, "\""@ + xs[i].etag@ + "\""@) + elem_text("Size"@, dec_digits(xs[i].size as nat)) + elem_text("LastModified"@, xs[i].last_modified@) + close_tag("Part"@);
        let gd = |i: int| open_tag("Part"@) + elem_text("PartNumber"@, dec_int(xd[i].part_number as int)) + elem_text("ETag"@, "\""@ + xd[i].etag@ + "\""@) + elem_text("Size"@, dec_digits(xd[i].size as nat)) + elem_text("LastModified"@, xd[i].last_modified@) + close_tag("Part"@);
        lemma_flatten_new_step(xs.len(), g);
        assert(Seq::new(xd.len(), g) =~= Seq::new(xd.len(), gd));
        assert(part_entries(xs) =~= part_entries(xd) + g(xs.len() - 1));
    }
}

/// The delete entries: the element for `xs[i]` at place `i`.
pub open spec fn delete_elements(quiet: bool, xs: Seq<(String, Option<S3Error>)>) -> Seq<char> {
    Seq::new(xs.len(), |i: int| (match xs[i].1 { None => if quiet { Seq::empty() } else { open_tag("Deleted"@) + elem_text("Key"@, xs[i].0@) + close_tag("Deleted"@) }, Some(e) => open_tag("Error"@) + elem_text("Key"@, xs[i].0@) + elem_text("Code"@, "InternalError"@) + elem_text("Message"@, spec_code(e) + ": "@ + spec_message(e)) + close_tag("Error"@) })).flatten()
}

proof fn lemma_delete_entries_in_order(quiet: bool, xs: Seq<(String, Option<S3Error>)>)
    ensures
        delete_entries(quiet, xs) == delete_elements(quiet, xs),
    decreases xs.len(),
{
    reveal_strlit("\"");
    if xs.len() > 0 {
        let xd = xs.drop_last();
        lemma_delete_entries_in_order(quiet, xd);
        let g = |i: int| (match xs[i].1 { None => if quiet { Seq::empty() } else { open_tag("Deleted"@) + elem_text("Key"@, xs[i].0@) + close_tag("Deleted"@) }, Some(e) => open_tag("Error"@) + elem_text("Key"@, xs[i].0@) + elem_text("Code"@, "InternalError"@) + elem_text("Message"@, spec_code(e) + ": "@ + spec_message(e)) + close_tag("Error"@) });
        let gd = |i: int| (match xd[i].1 { None => if quiet { Seq::empty() } else { open_tag("Deleted"@) + elem_text("Key"@, xd[i].0@) + close_tag("Deleted"@) }, Some(e) => open_tag("Error"@) + elem_text("Key"@, xd[i].0@) + elem_text("Code"@, "InternalError"@) + elem_text("Message"@, spec_code(e) + ": "@ + spec_message(e)) + close_tag("Error"@) });
        lemma_flatten_new_step(xs.len(), g);
        assert(Seq::new(xd.len(), g) =~= Seq::new(xd.len(), gd));
        assert(delete_entries(quiet, xs) =~= delete_entries(quiet, xd) + g(xs.len() - 1));
    }
}


/// A ListBuckets answer lists the buckets in the order given, one `Bucket`
/// element each: the i-th carries the name and creation date of
/// `buckets[i]`, and nothing else varies with the buckets.
pub proof fn lemma_list_buckets_in_order(bs: Seq<BucketInfo>)
    ensures
        spec_list_buckets_xml(bs) == xml_declaration() + open_s3_tag("ListAllMyBucketsResult"@) + open_tag(
            "Owner"@,
        ) + elem_text("ID"@, "miniminio"@) + elem_text("DisplayName"@, "miniminio"@) + close_tag("Owner"@)
            + open_tag("Buckets"@) + bucket_elements(bs) + close_tag("Buckets"@) + close_tag(
            "ListAllMyBucketsResult"@,
        ),
{
    lemma_bucket_entries_in_order(bs);
}

/// A ListObjects answer lists the objects of the page in order, one
/// `Contents` element each: the i-th carries the key, date, quoted ETag and
/// size of `r.objects[i]`; then one `CommonPrefixes` element for each common
/// prefix, in order. Before them stand the bucket, the prefix, the key count
/// (second version only), the page size, the delimiter (when one is given),
/// whether the listing is truncated and the continuation token (when there
/// is one).
pub proof fn lemma_list_objects_in_order(
    bucket: Seq<char>,
    prefix: Seq<char>,
    delimiter: Seq<char>,
    max_keys: nat,
    v2: bool,
    r: ListObjectsResult,
)
    ensures
        spec_list_objects_xml(bucket, prefix, delimiter, max_keys, v2, r) == xml_declaration()
            + open_s3_tag("ListBucketResult"@) + elem_text("Name"@, bucket) + elem_text("Prefix"@, prefix)
            + (if v2 {
            elem_text("KeyCount"@, dec_digits(r.objects@.len()))
        } else {
            Seq::empty()
        }) + elem_text("MaxKeys"@, dec_digits(max_keys)) + (if delimiter.len() > 0 {
            elem_text("Delimiter"@, delimiter)
        } else {
            Seq::empty()
        }) + elem_text("IsTruncated"@, if r.is_truncated {
            "true"@
        } else {
            "false"@
        }) + (match r.next_continuation_token {
            Some(t) => elem_text("NextContinuationToken"@, t@),
            None => Seq::empty(),
        }) + object_elements(r.objects@) + prefix_elements(sviews(r.common_prefixes@)) + close_tag(
            "ListBucketResult"@,
        ),
{
    lemma_object_entries_in_order(r.objects@);
    lemma_prefix_entries_in_order(sviews(r.common_prefixes@));
}

/// A ListMultipartUploads answer lists the uploads in the order given, one
/// `Upload` element each, the i-th carrying the key, upload id and start
/// time of `uploads[i]`.
pub proof fn lemma_list_uploads_in_order(bucket: Seq<char>, us: Seq<MultipartUpload>)
    ensures
        spec_uploads_xml(bucket, us) == xml_declaration() + open_s3_tag("ListMultipartUploadsResult"@)
            + elem_text("Bucket"@, bucket) + upload_elements(us) + close_tag("ListMultipartUploadsResult"@),
{
    lemma_upload_entries_in_order(us);
}

/// A ListParts answer lists the parts in the order given, one `Part`
/// element each: the i-th carries the number, quoted ETag, size and date of
/// `parts[i]`.
pub proof fn lemma_list_parts_in_order(bucket: Seq<char>, key: Seq<char>, upload_id: Seq<char>, ps: Seq<PartInfo>)
    ensures
        spec_parts_xml(bucket, key, upload_id, ps) == xml_declaration() + open_s3_tag("ListPartsResult"@)
            + elem_text("Bucket"@, bucket) + elem_text("Key"@, key) + elem_text("UploadId"@, upload_id)
            + part_elements(ps) + close_tag("ListPartsResult"@),
{
    lemma_part_entries_in_order(ps);
}

/// A DeleteObjects answer reports the keys in request order: for the i-th,
/// a `Deleted` element with its key when it was deleted (none when the
/// request is quiet), or an `Error` element with its key and the failure.
pub proof fn lemma_delete_results_in_order(quiet: bool, os: Seq<(String, Option<S3Error>)>)
    ensures
        spec_delete_result_xml(quiet, os) == xml_declaration() + open_s3_tag("DeleteResult"@)
            + delete_elements(quiet, os) + close_tag("DeleteResult"@),
{
    lemma_delete_entries_in_order(quiet, os);
}

} // verus!
