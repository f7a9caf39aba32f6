//! The storage rules: bucket and key names, object metadata, listing,
//! multipart uploads, statistics and cleanup decisions. The filesystem work
//! that uses them is done by the server.

use vstd::prelude::*;
use crate::text::{chars_of, string_from_chars, copy_str, push_str, push_decimal, dec_digits};
use crate::scan::{split_on, has_suffix, first_match, lex_le, str_eq, split_chars, ends_with_chars, contains_chars, contains_seq, slice_chars, chars_eq, lemma_first_match_props};
use crate::crypto::{md5, hex_lower, md5_digest, hex_encode, is_lower_hex_digit, lemma_hex_lower_shape};
use crate::codec::{rfc3339_instant, parse_rfc3339};
use crate::strmap::StrMap;
use crate::error::S3Error;
use crate::order::{SortKey, sorted_by, sort_by_key_le};
use vstd::string::StringSliceAdditionalSpecFns;

verus! {

broadcast use vstd::seq_lib::group_seq_properties;

// ---------------------------------------------------------------------------
// Stored records

/// A bucket and its creation time.
#[derive(Clone, Debug)]
pub struct BucketInfo {
    pub name: String,
    pub created: String,
}

/// What is stored beside each object.
#[derive(Clone, Debug)]
pub struct ObjectMetadata {
    pub key: String,
    pub size: u64,
    pub etag: String,
    pub content_type: String,
    pub last_modified: String,
    pub user_metadata: StrMap,
}

/// One page of an object listing.
#[derive(Clone, Debug)]
pub struct ListObjectsResult {
    pub objects: Vec<ObjectMetadata>,
    pub common_prefixes: Vec<String>,
    pub is_truncated: bool,
    pub next_continuation_token: Option<String>,
}

/// An incomplete multipart upload.
#[derive(Clone, Debug)]
pub struct MultipartUpload {
    pub upload_id: String,
    pub bucket: String,
    pub key: String,
    pub initiated: String,
}

/// One uploaded part of a multipart upload.
#[derive(Clone, Debug)]
pub struct PartInfo {
    pub part_number: i32,
    pub size: u64,
    pub etag: String,
    pub last_modified: String,
}

/// Object count and total size of a bucket.
#[derive(Clone, Copy, Debug)]
pub struct BucketStats {
    pub object_count: u64,
    pub total_size: u64,
}

impl Default for BucketStats {
    fn default() -> (s: Self)
        ensures
            s.object_count == 0,
            s.total_size == 0,
    {
        BucketStats { object_count: 0, total_size: 0 }
    }
}

impl BucketStats {
    /// Counts one more object, and its size when the size could be read.
    pub fn record_object(&mut self, size: Option<u64>)
        requires
            old(self).object_count < u64::MAX,
            size matches Some(n) ==> old(self).total_size + n <= u64::MAX,
        ensures
            final(self).object_count == old(self).object_count + 1,
            final(self).total_size == old(self).total_size + match size {
                Some(n) => n as int,
                None => 0,
            },
    {
        self.object_count = self.object_count + 1;
        if let Some(n) = size {
            self.total_size = self.total_size + n;
        }
    }

    /// Adds the counts of another bucket.
    pub fn add(&mut self, other: &BucketStats)
        requires
            old(self).object_count + other.object_count <= u64::MAX,
            old(self).total_size + other.total_size <= u64::MAX,
        ensures
            final(self).object_count == old(self).object_count + other.object_count,
            final(self).total_size == old(self).total_size + other.total_size,
    {
        self.object_count = self.object_count + other.object_count;
        self.total_size = self.total_size + other.total_size;
    }
}

/// The creation time given to a bucket whose record is missing or unreadable.
pub open spec fn epoch_timestamp() -> Seq<char> {
    "1970-01-01T00:00:00.000Z"@
}

impl BucketInfo {
    /// The record of a bucket whose own record is missing or unreadable: its
    /// directory name and the Unix epoch.
    pub fn fallback(name: &str) -> (b: BucketInfo)
        ensures
            b.name@ == name@,
            b.created@ == epoch_timestamp(),
    {
        BucketInfo { name: copy_str(name), created: copy_str("1970-01-01T00:00:00.000Z") }
    }
}

impl SortKey for BucketInfo {
    /// Buckets are listed by name.
    open spec fn key_le(a: Self, b: Self) -> bool {
        lex_le(a.name@, b.name@)
    }

    proof fn lemma_key_total(a: Self, b: Self) {
        String::lemma_key_total(a.name, b.name);
    }

    proof fn lemma_key_transitive(a: Self, b: Self, c: Self) {
        String::lemma_key_transitive(a.name, b.name, c.name);
    }

    fn key_le_exec(&self, other: &Self) -> (r: bool) {
        self.name.key_le_exec(&other.name)
    }
}

impl SortKey for MultipartUpload {
    /// Uploads are listed by the time they were started, as RFC 3339 text.
    open spec fn key_le(a: Self, b: Self) -> bool {
        lex_le(a.initiated@, b.initiated@)
    }

    proof fn lemma_key_total(a: Self, b: Self) {
        String::lemma_key_total(a.initiated, b.initiated);
    }

    proof fn lemma_key_transitive(a: Self, b: Self, c: Self) {
        String::lemma_key_transitive(a.initiated, b.initiated, c.initiated);
    }

    fn key_le_exec(&self, other: &Self) -> (r: bool) {
        self.initiated.key_le_exec(&other.initiated)
    }
}

impl SortKey for PartInfo {
    /// Parts are listed by part number.
    open spec fn key_le(a: Self, b: Self) -> bool {
        a.part_number <= b.part_number
    }

    proof fn lemma_key_total(a: Self, b: Self) {
    }

    proof fn lemma_key_transitive(a: Self, b: Self, c: Self) {
    }

    fn key_le_exec(&self, other: &Self) -> (r: bool) {
        self.part_number <= other.part_number
    }
}

/// The incomplete uploads of one bucket, oldest first.
pub fn uploads_of_bucket(all: Vec<MultipartUpload>, bucket: &str) -> (r: Vec<MultipartUpload>)
    ensures
        sorted_by(r@),
        r@.to_multiset() == all@.filter(|u: MultipartUpload| u.bucket@ == bucket@).to_multiset(),
{
    let ghost pred = |u: MultipartUpload| u.bucket@ == bucket@;
    let ghost wanted = all@.filter(pred).to_multiset();
    let mut kept: Vec<MultipartUpload> = Vec::new();
    let mut rest = all;
    let b = chars_of(bucket);
    while rest.len() > 0
        invariant
            b@ == bucket@,
            pred == (|u: MultipartUpload| u.bucket@ == bucket@),
            kept@.to_multiset().add(rest@.filter(pred).to_multiset()) == wanted,
        decreases rest.len(),
    {
        let ghost before = rest@;
        let u = rest.pop().unwrap();
        proof {
            assert(before =~= rest@.push(u));
            rest@.lemma_filter_push(u, pred);
        }
        let ub = chars_of(u.bucket.as_str());
        if chars_eq(&ub, &b) {
            kept.push(u);
            proof {
                assert(before.filter(pred) == rest@.filter(pred).push(u));
                assert(kept@.to_multiset().add(rest@.filter(pred).to_multiset()) =~= wanted);
            }
        } else {
            proof {
                assert(before.filter(pred) == rest@.filter(pred));
            }
        }
    }
    proof {
        assert(rest@.filter(pred) =~= Seq::<MultipartUpload>::empty());
        assert(kept@.to_multiset() =~= wanted);
    }
    sort_by_key_le(kept)
}

/// Directory entries whose names start with `.` hold the server's own data
/// and are never buckets or objects.
pub fn is_internal_name(name: &str) -> (r: bool)
    ensures
        r == (name@.len() > 0 && name@[0] == '.'),
{
    let c = chars_of(name);
    c.len() > 0 && c[0] == '.'
}

// ---------------------------------------------------------------------------
// Names

pub open spec fn bucket_char_ok(c: char) -> bool {
    ('a' <= c && c <= 'z') || ('0' <= c && c <= '9') || c == '-' || c == '.'
}

pub open spec fn ascii_alphanumeric(c: char) -> bool {
    ('a' <= c && c <= 'z') || ('A' <= c && c <= 'Z') || ('0' <= c && c <= '9')
}

/// The bucket naming rule: 3 to 63 bytes; lower-case letters, digits, `-` and
/// `.`; a letter or digit first; no `..`. Each failed check has its message.
pub open spec fn spec_validate_bucket_name(name: Seq<char>) -> Result<(), Seq<char>> {
    let n = vstd::utf8::encode_utf8(name).len();
    if n < 3 || n > 63 {
        Err("Bucket name must be 3-63 characters"@)
    } else if !(forall|i: int| 0 <= i < name.len() ==> bucket_char_ok(#[trigger] name[i])) {
        Err("Bucket name must contain only lowercase letters, numbers, hyphens, periods"@)
    } else if !ascii_alphanumeric(name[0]) {
        Err("Bucket name must start with letter or number"@)
    } else if name[0] == '.' || contains_seq(name, ".."@) {
        Err("Invalid bucket name format"@)
    } else {
        Ok(())
    }
}

/// The result of checking a name against a rule, as an S3 error.
pub open spec fn bucket_name_result(r: Result<(), Seq<char>>, e: Result<(), S3Error>) -> bool {
    match r {
        Ok(()) => e is Ok,
        Err(m) => e matches Err(S3Error::InvalidBucketName(x)) && x@ == m,
    }
}

/// Checks a bucket name against the naming rule.
pub fn validate_bucket_name(name: &str) -> (r: Result<(), S3Error>)
    ensures
        bucket_name_result(spec_validate_bucket_name(name@), r),
{
    let n = name.as_bytes().len();
    if n < 3 || n > 63 {
        return Err(S3Error::InvalidBucketName(copy_str("Bucket name must be 3-63 characters")));
    }
    let c = chars_of(name);
    let mut i: usize = 0;
    while i < c.len()
        invariant
            i <= c.len(),
            c@ == name@,
            3 <= vstd::utf8::encode_utf8(name@).len() <= 63,
            forall|j: int| 0 <= j < i ==> bucket_char_ok(#[trigger] c@[j]),
        decreases c.len() - i,
    {
        let ch = c[i];
        if !(('a' <= ch && ch <= 'z') || ('0' <= ch && ch <= '9') || ch == '-' || ch == '.') {
            assert(!bucket_char_ok(name@[i as int]));
            return Err(
                S3Error::InvalidBucketName(
                    copy_str("Bucket name must contain only lowercase letters, numbers, hyphens, periods"),
                ),
            );
        }
        i = i + 1;
    }
    if c.len() == 0 {
        proof {
            assert(name@ =~= Seq::<char>::empty());
            assert(vstd::utf8::encode_utf8(Seq::<char>::empty()) =~= Seq::<u8>::empty());
        }
        return Err(S3Error::InvalidBucketName(copy_str("Bucket name must be 3-63 characters")));
    }
    assert(forall|j: int| 0 <= j < name@.len() ==> bucket_char_ok(#[trigger] name@[j]));
    let first = c[0];
    if !(('a' <= first && first <= 'z') || ('A' <= first && first <= 'Z') || ('0' <= first && first <= '9')) {
        return Err(S3Error::InvalidBucketName(copy_str("Bucket name must start with letter or number")));
    }
    let dots = chars_of("..");
    assert(dots@ == ".."@);
    if first == '.' || contains_chars(&c, &dots) {
        return Err(S3Error::InvalidBucketName(copy_str("Invalid bucket name format")));
    }
    Ok(())
}

/// `Path::components` of `key` holds something other than a normal
/// component: a root (`/` first), a leading `.` component, or a `..`
/// component.
pub open spec fn key_escapes(key: Seq<char>) -> bool {
    let segs = split_on(key, "/"@);
    ||| (key.len() > 0 && key[0] == '/')
    ||| segs[0] == "."@
    ||| exists|i: int| 0 <= i < segs.len() && segs[i] == ".."@
}

/// The key rule: not empty, at most 1024 bytes, and a relative path of normal
/// components only.
pub open spec fn spec_validate_key(key: Seq<char>) -> Result<(), Seq<char>> {
    if key.len() == 0 {
        Err("Key cannot be empty"@)
    } else if vstd::utf8::encode_utf8(key).len() > 1024 {
        Err("Key too long"@)
    } else if key_escapes(key) {
        Err("Invalid key: path traversal not allowed"@)
    } else {
        Ok(())
    }
}

pub open spec fn key_result(r: Result<(), Seq<char>>, e: Result<(), S3Error>) -> bool {
    match r {
        Ok(()) => e is Ok,
        Err(m) => e matches Err(S3Error::InvalidArgument(x)) && x@ == m,
    }
}

/// Checks an object key against the key rule.
pub fn validate_key(key: &str) -> (r: Result<(), S3Error>)
    ensures
        key_result(spec_validate_key(key@), r),
{
    let c = chars_of(key);
    if c.len() == 0 {
        return Err(S3Error::InvalidArgument(copy_str("Key cannot be empty")));
    }
    if key.as_bytes().len() > 1024 {
        return Err(S3Error::InvalidArgument(copy_str("Key too long")));
    }
    proof {
        reveal_strlit("/");
        reveal_strlit(".");
        reveal_strlit("..");
    }
    let slash = chars_of("/");
    let segs = split_chars(&c, &slash);
    let dot = chars_of(".");
    let dotdot = chars_of("..");
    let ghost sv = crate::text::vviews(segs@);
    assert(sv == split_on(key@, "/"@));
    assert(sv.len() > 0) by {
        lemma_split_nonempty(key@, "/"@);
    }
    if c[0] == '/' || chars_eq(&segs[0], &dot) {
        assert(key_escapes(key@));
        return Err(S3Error::InvalidArgument(copy_str("Invalid key: path traversal not allowed")));
    }
    let mut i: usize = 0;
    while i < segs.len()
        invariant
            i <= segs.len(),
            sv == crate::text::vviews(segs@),
            sv == split_on(key@, "/"@),
            key@.len() > 0,
            vstd::utf8::encode_utf8(key@).len() <= 1024,
            dotdot@ == ".."@,
            forall|j: int| 0 <= j < i ==> #[trigger] sv[j] != ".."@,
        decreases segs.len() - i,
    {
        if chars_eq(&segs[i], &dotdot) {
            assert(sv[i as int] == ".."@);
            assert(key_escapes(key@));
            return Err(S3Error::InvalidArgument(copy_str("Invalid key: path traversal not allowed")));
        }
        i = i + 1;
    }
    assert(!key_escapes(key@));
    Ok(())
}

/// `str::split` yields at least one piece.
pub proof fn lemma_split_nonempty(s: Seq<char>, sep: Seq<char>)
    ensures
        split_on(s, sep).len() > 0,
    decreases s.len(),
{
    if sep.len() > 0 {
        match first_match(s, sep, 0) {
            Some(i) => {
                lemma_first_match_props(s, sep, 0);
            },
            None => {},
        }
    }
}

/// The name of the file that holds an object's metadata: the key and
/// `.meta`.
pub fn meta_file_name(key: &str) -> (r: String)
    ensures
        r@ == key@ + ".meta"@,
{
    let mut r = copy_str(key);
    push_str(&mut r, ".meta");
    r
}

/// The names of the files of an uploaded part: its data and its metadata.
pub fn part_file_names(part_number: i32) -> (r: (String, String))
    ensures
        r.0@ == crate::text::dec_int(part_number as int),
        r.1@ == crate::text::dec_int(part_number as int) + ".meta"@,
{
    let mut d = String::new();
    crate::text::push_decimal_i64(&mut d, part_number as i64);
    let mut m = copy_str(d.as_str());
    push_str(&mut m, ".meta");
    (d, m)
}

/// A bucket directory may be deleted when it holds nothing but the
/// server's own `.miniminio` directory.
pub fn bucket_dir_empty(entries: &Vec<String>) -> (r: bool)
    ensures
        r == (forall|i: int| 0 <= i < entries@.len() ==> #[trigger] entries@[i]@ == ".miniminio"@),
{
    let mut i: usize = 0;
    while i < entries.len()
        invariant
            i <= entries.len(),
            forall|j: int| 0 <= j < i ==> #[trigger] entries@[j]@ == ".miniminio"@,
        decreases entries.len() - i,
    {
        if !str_eq(entries[i].as_str(), ".miniminio") {
            return false;
        }
        i = i + 1;
    }
    true
}

// ---------------------------------------------------------------------------
// ETags and object metadata

/// The ETag of an object body: its MD5 digest in lower-case hex.
pub open spec fn spec_etag(data: Seq<u8>) -> Seq<char> {
    hex_lower(md5(data))
}

/// The ETag of an object body: 32 lower-case hex digits.
pub fn etag_of(data: &[u8]) -> (r: String)
    ensures
        r@ == spec_etag(data@),
        r@.len() == 32,
        forall|i: int| 0 <= i < 32 ==> is_lower_hex_digit(#[trigger] r@[i]),
{
    let d = md5_digest(data);
    proof {
        lemma_hex_lower_shape(d@);
    }
    hex_encode(d.as_slice())
}

/// The metadata recorded when `data` is stored under `key`.
pub fn new_object_metadata(
    key: &str,
    data: &[u8],
    content_type: &str,
    last_modified: &str,
    user_metadata: StrMap,
) -> (m: ObjectMetadata)
    ensures
        m.key@ == key@,
        m.size == data@.len(),
        m.etag@ == spec_etag(data@),
        m.content_type@ == content_type@,
        m.last_modified@ == last_modified@,
        m.user_metadata == user_metadata,
{
    ObjectMetadata {
        key: copy_str(key),
        size: data.len() as u64,
        etag: etag_of(data),
        content_type: copy_str(content_type),
        last_modified: copy_str(last_modified),
        user_metadata,
    }
}

// ---------------------------------------------------------------------------
// Multipart uploads

/// Part numbers strictly increase along the list.
pub open spec fn parts_ascending(parts: Seq<(i32, String)>) -> bool {
    forall|i: int| 0 <= i < parts.len() - 1 ==> (#[trigger] parts[i]).0 < parts[i + 1].0
}

/// Checks that the parts of a completion request are in ascending order.
pub fn check_part_order(parts: &Vec<(i32, String)>) -> (r: Result<(), S3Error>)
    ensures
        parts_ascending(parts@) ==> r is Ok,
        !parts_ascending(parts@) ==> r == Err::<(), S3Error>(S3Error::InvalidPartOrder),
{
    let mut i: usize = 1;
    while i < parts.len()
        invariant
            1 <= i,
            forall|j: int| 0 <= j < i - 1 && j < parts.len() - 1 ==> (#[trigger] parts@[j]).0 < parts@[j + 1].0,
        decreases parts.len() - i,
    {
        if parts[i - 1].0 >= parts[i].0 {
            assert(!((parts@[i - 1]).0 < parts@[i as int].0));
            return Err(S3Error::InvalidPartOrder);
        }
        i = i + 1;
    }
    Ok(())
}

/// The MD5 digests of each part, concatenated.
pub open spec fn digests_of(parts: Seq<Seq<u8>>) -> Seq<u8>
    decreases parts.len(),
{
    if parts.len() == 0 {
        Seq::empty()
    } else {
        digests_of(parts.drop_last()) + md5(parts.last())
    }
}

/// The ETag of an object assembled from parts: the MD5 of the concatenated
/// part digests in hex, a `-`, and the number of parts.
pub open spec fn spec_multipart_etag(parts: Seq<Seq<u8>>) -> Seq<char> {
    hex_lower(md5(digests_of(parts))) + "-"@ + dec_digits(parts.len())
}

/// The running digest and size of an object being assembled from parts.
pub struct PartAssembly {
    digests: Vec<u8>,
    total_size: u64,
    parts: Ghost<Seq<Seq<u8>>>,
}

impl PartAssembly {
    /// The parts added so far.
    pub closed spec fn added(&self) -> Seq<Seq<u8>> {
        self.parts@
    }

    /// The total size of the parts added so far.
    pub closed spec fn size(&self) -> nat {
        self.total_size as nat
    }

    pub closed spec fn wf(&self) -> bool {
        &&& self.digests@ == digests_of(self.parts@)
        &&& self.total_size == total_len(self.parts@)
        &&& self.parts@.len() <= usize::MAX
    }

    pub fn new() -> (a: PartAssembly)
        ensures
            a.wf(),
            a.added() == Seq::<Seq<u8>>::empty(),
    {
        PartAssembly { digests: Vec::new(), total_size: 0, parts: Ghost(Seq::empty()) }
    }

    /// Adds the next part.
    pub fn add_part(&mut self, data: &[u8])
        requires
            old(self).wf(),
            total_len(old(self).added()) + data@.len() <= u64::MAX,
            old(self).added().len() < usize::MAX,
        ensures
            final(self).wf(),
            final(self).added() == old(self).added().push(data@),
    {
        let d = md5_digest(data);
        let ghost old_digests = self.digests@;
        self.digests.extend_from_slice(d.as_slice());
        assert(self.digests@ =~= old_digests + d@);
        self.total_size = self.total_size + data.len() as u64;
        let ghost old_parts = self.parts@;
        self.parts = Ghost(self.parts@.push(data@));
        assert(self.parts@.drop_last() =~= old_parts);
        assert(digests_of(self.parts@) == digests_of(old_parts) + md5(data@));
    }

    /// The total size of the assembled object.
    pub fn total_size(&self) -> (n: u64)
        requires
            self.wf(),
        ensures
            n == total_len(self.added()),
    {
        self.total_size
    }

    /// The ETag of the assembled object: 32 lower-case hex digits, `-`, and
    /// the number of parts in decimal.
    pub fn etag(&self, part_count: usize) -> (r: String)
        requires
            self.wf(),
            part_count == self.added().len(),
        ensures
            r@ == spec_multipart_etag(self.added()),
            r@.len() == 33 + dec_digits(part_count as nat).len(),
            forall|i: int| 0 <= i < 32 ==> is_lower_hex_digit(#[trigger] r@[i]),
            r@[32] == '-',
            r@.skip(33) == dec_digits(part_count as nat),
    {
        let d = md5_digest(self.digests.as_slice());
        proof {
            lemma_hex_lower_shape(d@);
            reveal_strlit("-");
            let h = hex_lower(d@);
            let e = h + "-"@ + dec_digits(part_count as nat);
            assert(e.skip(33) =~= dec_digits(part_count as nat));
            assert(e[32] == '-');
            assert forall|i: int| 0 <= i < 32 implies is_lower_hex_digit(#[trigger] e[i]) by {
                assert(e[i] == h[i]);
            }
        }
        let mut r = hex_encode(d.as_slice());
        push_str(&mut r, "-");
        push_decimal(&mut r, part_count as u64);
        r
    }

    /// The metadata of the object completed from the parts added, one for
    /// each part of the completion request: its key, the total size of the
    /// parts, the multipart ETag, the content type given when the upload
    /// began, and no user metadata.
    pub fn completed_metadata(&self, key: &str, content_type: &str, last_modified: &str, part_count: usize) -> (m:
        ObjectMetadata)
        requires
            self.wf(),
            part_count == self.added().len(),
        ensures
            m.key@ == key@,
            m.size == total_len(self.added()),
            m.etag@ == spec_multipart_etag(self.added()),
            m.content_type@ == content_type@,
            m.last_modified@ == last_modified@,
            m.user_metadata.view_entries() == Seq::<(Seq<char>, Seq<char>)>::empty(),
    {
        ObjectMetadata {
            key: copy_str(key),
            size: self.total_size(),
            etag: self.etag(part_count),
            content_type: copy_str(content_type),
            last_modified: copy_str(last_modified),
            user_metadata: StrMap::new(),
        }
    }
}

/// The total length of the parts.
pub open spec fn total_len(parts: Seq<Seq<u8>>) -> nat
    decreases parts.len(),
{
    if parts.len() == 0 {
        0
    } else {
        total_len(parts.drop_last()) + parts.last().len()
    }
}

// ---------------------------------------------------------------------------
// Cleanup decisions

/// Whether an upload started at `initiated` (RFC 3339) began before `cutoff`
/// (seconds since the epoch and nanoseconds); unparsable times never expire.
pub open spec fn spec_upload_expired(initiated: Seq<char>, cutoff: (i64, u32)) -> bool {
    match rfc3339_instant(initiated) {
        Some(t) => t.0 < cutoff.0 || (t.0 == cutoff.0 && t.1 < cutoff.1),
        None => false,
    }
}

/// Whether a multipart upload is older than the cutoff instant.
pub fn upload_expired(initiated: &str, cutoff: (i64, u32)) -> (r: bool)
    ensures
        r == spec_upload_expired(initiated@, cutoff),
{
    match parse_rfc3339(initiated) {
        Some(t) => t.0 < cutoff.0 || (t.0 == cutoff.0 && t.1 < cutoff.1),
        None => false,
    }
}

/// `s` with every trailing occurrence of the non-empty `suffix` removed, as
/// `str::trim_end_matches` gives it.
pub open spec fn trim_end_matches(s: Seq<char>, suffix: Seq<char>) -> Seq<char>
    decreases s.len(),
{
    if suffix.len() > 0 && has_suffix(s, suffix) {
        trim_end_matches(s.take(s.len() - suffix.len()), suffix)
    } else {
        s
    }
}

/// `s` with one trailing occurrence of `suffix` removed, if it ends with it.
pub open spec fn strip_one_suffix(s: Seq<char>, suffix: Seq<char>) -> Seq<char> {
    if has_suffix(s, suffix) {
        s.take(s.len() - suffix.len())
    } else {
        s
    }
}

/// The object key that a metadata file path (relative to the bucket's
/// metadata directory) belongs to: the path without the one `.meta` that
/// [`meta_file_name`] appended.
pub fn key_from_meta_path(rel: &str) -> (r: String)
    ensures
        r@ == strip_one_suffix(rel@, ".meta"@),
{
    proof {
        reveal_strlit(".meta");
    }
    let c = chars_of(rel);
    let m = chars_of(".meta");
    if ends_with_chars(&c, &m) {
        let k = slice_chars(&c, 0, c.len() - m.len());
        string_from_chars(&k)
    } else {
        string_from_chars(&c)
    }
}

/// `str::trim_end_matches` with a non-empty text pattern.
pub fn trim_suffix_repeatedly(s: &str, suffix: &str) -> (r: String)
    requires
        suffix@.len() > 0,
    ensures
        r@ == trim_end_matches(s@, suffix@),
{
    let mut c = chars_of(s);
    let p = chars_of(suffix);
    while ends_with_chars(&c, &p)
        invariant
            p@ == suffix@,
            p@.len() > 0,
            trim_end_matches(c@, p@) == trim_end_matches(s@, suffix@),
        decreases c.len(),
    {
        c = slice_chars(&c, 0, c.len() - p.len());
    }
    string_from_chars(&c)
}

/// The key read back from the name of a metadata file is the key it was
/// written for, whatever the key (one that itself ends with `.meta` too).
pub proof fn lemma_meta_name_round_trip(key: Seq<char>)
    ensures
        strip_one_suffix(key + ".meta"@, ".meta"@) == key,
{
    reveal_strlit(".meta");
    let m = key + ".meta"@;
    assert(m.skip(m.len() - 5) =~= ".meta"@);
    assert(has_suffix(m, ".meta"@));
    assert(m.take(m.len() - 5) =~= key);
}

} // verus!
