//! Which S3 operation a request asks for, by its method, path and query
//! parameters, and the parameters of object listings.

use vstd::prelude::*;
use crate::strmap::StrMap;
use crate::text::copy_str;
use crate::s3::{spec_max_keys, max_keys_param};
use crate::scan::has_prefix;

verus! {

/// Requests that need no signature: the web interface (`/ui` and the paths
/// under `/ui/`), the health check and the favicon. A bucket whose name
/// merely begins with `ui` is an S3 path like any other.
pub open spec fn spec_auth_exempt(path: Seq<char>) -> bool {
    path == "/ui"@ || has_prefix(path, "/ui/"@) || path == "/health"@ || path == "/favicon.ico"@
}

/// Whether a request path is served without checking its signature.
pub fn auth_exempt(path: &str) -> (r: bool)
    ensures
        r == spec_auth_exempt(path@),
{
    let p = crate::text::chars_of(path);
    let ui = crate::text::chars_of("/ui/");
    crate::scan::str_eq(path, "/ui") || crate::scan::starts_with_chars(&p, &ui)
        || crate::scan::str_eq(path, "/health") || crate::scan::str_eq(path, "/favicon.ico")
}

/// The value of a query parameter as a view.
pub open spec fn param(params: StrMap, name: Seq<char>) -> Option<Seq<char>> {
    if params.view_map().dom().contains(name) {
        Some(params.view_map()[name])
    } else {
        None
    }
}

/// What `GET /bucket` asks for.
#[derive(Debug, Clone, Copy, PartialEq, Eq, Structural)]
pub enum BucketGet {
    Location,
    MultipartUploads,
    ListObjects,
}

/// `?location` asks for the region, else `?uploads` for the incomplete
/// multipart uploads, else the request lists objects.
pub fn route_bucket_get(params: &StrMap) -> (r: BucketGet)
    requires
        params.wf(),
    ensures
        r == (if param(*params, "location"@) is Some {
            BucketGet::Location
        } else if param(*params, "uploads"@) is Some {
            BucketGet::MultipartUploads
        } else {
            BucketGet::ListObjects
        }),
{
    if params.get("location").is_some() {
        BucketGet::Location
    } else if params.get("uploads").is_some() {
        BucketGet::MultipartUploads
    } else {
        BucketGet::ListObjects
    }
}

/// Whether `POST /bucket` asks for a batch delete (`?delete`); other posts
/// to a bucket are not allowed.
pub fn route_bucket_post(params: &StrMap) -> (r: bool)
    requires
        params.wf(),
    ensures
        r == param(*params, "delete"@) is Some,
{
    params.get("delete").is_some()
}

/// The parameters of an object listing.
pub struct ListParams {
    pub v2: bool,
    pub prefix: String,
    pub delimiter: String,
    pub max_keys: usize,
    pub start_after: String,
    pub continuation_token: String,
}

/// A parameter, or empty when absent.
pub open spec fn param_or_empty(params: StrMap, name: Seq<char>) -> Seq<char> {
    match param(params, name) {
        Some(v) => v,
        None => Seq::empty(),
    }
}

fn get_or_empty(params: &StrMap, name: &str) -> (r: String)
    requires
        params.wf(),
    ensures
        r@ == param_or_empty(*params, name@),
{
    match params.get(name) {
        Some(v) => v,
        None => String::new(),
    }
}

/// The listing parameters of a request: `list-type=2` selects the second
/// format; `prefix`, `delimiter`, `start-after` and `continuation-token`
/// default to empty, `max-keys` to 1000.
pub fn list_params(params: &StrMap) -> (r: ListParams)
    requires
        params.wf(),
    ensures
        r.v2 == (param(*params, "list-type"@) == Some("2"@)),
        r.prefix@ == param_or_empty(*params, "prefix"@),
        r.delimiter@ == param_or_empty(*params, "delimiter"@),
        r.max_keys == spec_max_keys(param(*params, "max-keys"@)),
        r.start_after@ == param_or_empty(*params, "start-after"@),
        r.continuation_token@ == param_or_empty(*params, "continuation-token"@),
{
    let lt = params.get("list-type");
    let v2 = match &lt {
        Some(t) => crate::scan::str_eq(t.as_str(), "2"),
        None => false,
    };
    let mk = params.get("max-keys");
    let max_keys = match &mk {
        Some(m) => max_keys_param(Some(m.as_str())),
        None => max_keys_param(None),
    };
    ListParams {
        v2,
        prefix: get_or_empty(params, "prefix"),
        delimiter: get_or_empty(params, "delimiter"),
        max_keys,
        start_after: get_or_empty(params, "start-after"),
        continuation_token: get_or_empty(params, "continuation-token"),
    }
}

/// What `GET /bucket/key` asks for: the parts of an upload (`?uploadId`),
/// else the object.
pub fn route_object_get(params: &StrMap) -> (r: Option<String>)
    requires
        params.wf(),
    ensures
        match r {
            Some(id) => param(*params, "uploadId"@) == Some(id@),
            None => param(*params, "uploadId"@) is None,
        },
{
    params.get("uploadId")
}

/// What `DELETE /bucket/key` asks for: aborting an upload (`?uploadId`),
/// else deleting the object.
pub fn route_object_delete(params: &StrMap) -> (r: Option<String>)
    requires
        params.wf(),
    ensures
        match r {
            Some(id) => param(*params, "uploadId"@) == Some(id@),
            None => param(*params, "uploadId"@) is None,
        },
{
    params.get("uploadId")
}

/// What `PUT /bucket/key` asks for.
#[derive(Debug)]
pub enum ObjectPut {
    /// A part of a multipart upload: upload id and part number text.
    UploadPart(String, String),
    /// A copy from the named source.
    Copy(String),
    /// An object upload.
    Put,
}

/// `?uploadId` with `?partNumber` uploads a part; else an
/// `x-amz-copy-source` header copies; else the body is stored.
pub fn route_object_put(params: &StrMap, copy_source: Option<&str>) -> (r: ObjectPut)
    requires
        params.wf(),
    ensures
        match (param(*params, "uploadId"@), param(*params, "partNumber"@)) {
            (Some(id), Some(n)) => r matches ObjectPut::UploadPart(rid, rn) && rid@ == id && rn@ == n,
            _ => match copy_source {
                Some(s) => r matches ObjectPut::Copy(rs) && rs@ == s@,
                None => r matches ObjectPut::Put,
            },
        },
{
    match (params.get("uploadId"), params.get("partNumber")) {
        (Some(id), Some(n)) => ObjectPut::UploadPart(id, n),
        _ => match copy_source {
            Some(s) => ObjectPut::Copy(copy_str(s)),
            None => ObjectPut::Put,
        },
    }
}

/// What `POST /bucket/key` asks for.
#[derive(Debug)]
pub enum ObjectPost {
    /// Start a multipart upload.
    Initiate,
    /// Complete the multipart upload with this id.
    Complete(String),
    NotAllowed,
}

/// `?uploads` starts a multipart upload; else `?uploadId` completes one;
/// other posts to an object are not allowed.
pub fn route_object_post(params: &StrMap) -> (r: ObjectPost)
    requires
        params.wf(),
    ensures
        if param(*params, "uploads"@) is Some {
            r matches ObjectPost::Initiate
        } else {
            match param(*params, "uploadId"@) {
                Some(id) => r matches ObjectPost::Complete(rid) && rid@ == id,
                None => r matches ObjectPost::NotAllowed,
            }
        },
{
    if params.get("uploads").is_some() {
        ObjectPost::Initiate
    } else {
        match params.get("uploadId") {
            Some(id) => ObjectPost::Complete(id),
            None => ObjectPost::NotAllowed,
        }
    }
}

} // verus!
