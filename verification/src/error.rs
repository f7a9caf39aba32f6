//! S3 error codes, messages, HTTP statuses and the XML error body.

use vstd::prelude::*;
use crate::text::{copy_str, push_str};
use crate::xml::{XmlWriter, xml_declaration, open_tag, close_tag, elem_text};

verus! {

#[derive(Debug, Clone, PartialEq, Eq)]
pub enum S3Error {
    NoSuchBucket(String),
    NoSuchKey(String),
    BucketAlreadyExists(String),
    BucketNotEmpty(String),
    InvalidBucketName(String),
    InvalidArgument(String),
    NoSuchUpload(String),
    InvalidPart,
    InvalidPartOrder,
    EntityTooLarge,
    AccessDenied,
    SignatureDoesNotMatch,
    MissingSecurityHeader,
    MethodNotAllowed,
    InternalError(String),
}

/// The kind of an I/O failure, as far as S3 errors tell kinds apart.
#[derive(Debug, Clone, Copy, PartialEq, Eq)]
pub enum IoErrorKind {
    NotFound,
    PermissionDenied,
    Other,
}

/// The S3 error code of an error.
pub open spec fn spec_code(e: S3Error) -> Seq<char> {
    match e {
        S3Error::NoSuchBucket(_) => "NoSuchBucket"@,
        S3Error::NoSuchKey(_) => "NoSuchKey"@,
        S3Error::BucketAlreadyExists(_) => "BucketAlreadyExists"@,
        S3Error::BucketNotEmpty(_) => "BucketNotEmpty"@,
        S3Error::InvalidBucketName(_) => "InvalidBucketName"@,
        S3Error::InvalidArgument(_) => "InvalidArgument"@,
        S3Error::NoSuchUpload(_) => "NoSuchUpload"@,
        S3Error::InvalidPart => "InvalidPart"@,
        S3Error::InvalidPartOrder => "InvalidPartOrder"@,
        S3Error::EntityTooLarge => "EntityTooLarge"@,
        S3Error::AccessDenied => "AccessDenied"@,
        S3Error::SignatureDoesNotMatch => "SignatureDoesNotMatch"@,
        S3Error::MissingSecurityHeader => "MissingSecurityHeader"@,
        S3Error::MethodNotAllowed => "MethodNotAllowed"@,
        S3Error::InternalError(_) => "InternalError"@,
    }
}

/// The human-readable message of an error.
pub open spec fn spec_message(e: S3Error) -> Seq<char> {
    match e {
        S3Error::NoSuchBucket(b) => "The specified bucket does not exist: "@ + b@,
        S3Error::NoSuchKey(k) => "The specified key does not exist: "@ + k@,
        S3Error::BucketAlreadyExists(b) => "The requested bucket name already exists: "@ + b@,
        S3Error::BucketNotEmpty(b) => "The bucket you tried to delete is not empty: "@ + b@,
        S3Error::InvalidBucketName(b) => "The specified bucket is not valid: "@ + b@,
        S3Error::InvalidArgument(m) => m@,
        S3Error::NoSuchUpload(id) => "No such upload: "@ + id@,
        S3Error::InvalidPart => "One or more of the specified parts could not be found"@,
        S3Error::InvalidPartOrder => "The list of parts was not in ascending order"@,
        S3Error::EntityTooLarge => "Your proposed upload exceeds the maximum allowed size"@,
        S3Error::AccessDenied => "Access Denied"@,
        S3Error::SignatureDoesNotMatch => "The request signature we calculated does not match the signature you provided"@,
        S3Error::MissingSecurityHeader => "Missing required security header"@,
        S3Error::MethodNotAllowed => "The specified method is not allowed"@,
        S3Error::InternalError(m) => "Internal server error: "@ + m@,
    }
}

/// The HTTP status of an error.
pub open spec fn spec_status(e: S3Error) -> u16 {
    match e {
        S3Error::NoSuchBucket(_) | S3Error::NoSuchKey(_) | S3Error::NoSuchUpload(_) => 404,
        S3Error::BucketAlreadyExists(_) | S3Error::BucketNotEmpty(_) => 409,
        S3Error::InvalidBucketName(_) | S3Error::InvalidArgument(_) => 400,
        S3Error::InvalidPart | S3Error::InvalidPartOrder => 400,
        S3Error::EntityTooLarge => 413,
        S3Error::AccessDenied | S3Error::SignatureDoesNotMatch | S3Error::MissingSecurityHeader => 403,
        S3Error::MethodNotAllowed => 405,
        S3Error::InternalError(_) => 500,
    }
}

/// The XML body of an error response.
pub open spec fn spec_error_xml(e: S3Error) -> Seq<char> {
    xml_declaration() + open_tag("Error"@) + elem_text("Code"@, spec_code(e))
        + elem_text("Message"@, spec_message(e)) + close_tag("Error"@)
}

impl S3Error {
    pub fn code(&self) -> (c: &'static str)
        ensures
            c@ == spec_code(*self),
    {
        match self {
            S3Error::NoSuchBucket(_) => "NoSuchBucket",
            S3Error::NoSuchKey(_) => "NoSuchKey",
            S3Error::BucketAlreadyExists(_) => "BucketAlreadyExists",
            S3Error::BucketNotEmpty(_) => "BucketNotEmpty",
            S3Error::InvalidBucketName(_) => "InvalidBucketName",
            S3Error::InvalidArgument(_) => "InvalidArgument",
            S3Error::NoSuchUpload(_) => "NoSuchUpload",
            S3Error::InvalidPart => "InvalidPart",
            S3Error::InvalidPartOrder => "InvalidPartOrder",
            S3Error::EntityTooLarge => "EntityTooLarge",
            S3Error::AccessDenied => "AccessDenied",
            S3Error::SignatureDoesNotMatch => "SignatureDoesNotMatch",
            S3Error::MissingSecurityHeader => "MissingSecurityHeader",
            S3Error::MethodNotAllowed => "MethodNotAllowed",
            S3Error::InternalError(_) => "InternalError",
        }
    }

    pub fn message(&self) -> (m: String)
        ensures
            m@ == spec_message(*self),
    {
        match self {
            S3Error::NoSuchBucket(b) => with_suffix("The specified bucket does not exist: ", b),
            S3Error::NoSuchKey(k) => with_suffix("The specified key does not exist: ", k),
            S3Error::BucketAlreadyExists(b) => with_suffix("The requested bucket name already exists: ", b),
            S3Error::BucketNotEmpty(b) => with_suffix("The bucket you tried to delete is not empty: ", b),
            S3Error::InvalidBucketName(b) => with_suffix("The specified bucket is not valid: ", b),
            S3Error::InvalidArgument(m) => m.clone(),
            S3Error::NoSuchUpload(id) => with_suffix("No such upload: ", id),
            S3Error::InvalidPart => copy_str("One or more of the specified parts could not be found"),
            S3Error::InvalidPartOrder => copy_str("The list of parts was not in ascending order"),
            S3Error::EntityTooLarge => copy_str("Your proposed upload exceeds the maximum allowed size"),
            S3Error::AccessDenied => copy_str("Access Denied"),
            S3Error::SignatureDoesNotMatch => copy_str(
                "The request signature we calculated does not match the signature you provided",
            ),
            S3Error::MissingSecurityHeader => copy_str("Missing required security header"),
            S3Error::MethodNotAllowed => copy_str("The specified method is not allowed"),
            S3Error::InternalError(m) => with_suffix("Internal server error: ", m),
        }
    }

    /// The HTTP status code of the error response.
    pub fn status_code(&self) -> (s: u16)
        ensures
            s == spec_status(*self),
    {
        match self {
            S3Error::NoSuchBucket(_) | S3Error::NoSuchKey(_) | S3Error::NoSuchUpload(_) => 404,
            S3Error::BucketAlreadyExists(_) => 409,
            S3Error::BucketNotEmpty(_) => 409,
            S3Error::InvalidBucketName(_) | S3Error::InvalidArgument(_) => 400,
            S3Error::InvalidPart | S3Error::InvalidPartOrder => 400,
            S3Error::EntityTooLarge => 413,
            S3Error::AccessDenied | S3Error::SignatureDoesNotMatch | S3Error::MissingSecurityHeader => 403,
            S3Error::MethodNotAllowed => 405,
            S3Error::InternalError(_) => 500,
        }
    }

    pub fn to_xml(&self) -> (x: String)
        ensures
            x@ == spec_error_xml(*self),
    {
        let mut w = XmlWriter::new();
        let msg = self.message();
        w.declaration().open("Error").elem("Code", self.code()).elem("Message", msg.as_str()).close(
            "Error",
        );
        w.finish()
    }

    /// The error text: the code, a colon and a space, then the message.
    pub fn to_display_string(&self) -> (s: String)
        ensures
            s@ == spec_code(*self) + ": "@ + spec_message(*self),
    {
        let mut s = copy_str(self.code());
        push_str(&mut s, ": ");
        let m = self.message();
        push_str(&mut s, m.as_str());
        s
    }

    /// The error that an I/O failure of the given kind and text becomes.
    pub fn from_io(kind: IoErrorKind, text: String) -> (e: S3Error)
        ensures
            kind == IoErrorKind::NotFound ==> (e matches S3Error::NoSuchKey(k) && k@ == "unknown"@),
            kind == IoErrorKind::PermissionDenied ==> e == S3Error::AccessDenied,
            kind == IoErrorKind::Other ==> e == S3Error::InternalError(text),
    {
        match kind {
            IoErrorKind::NotFound => S3Error::NoSuchKey(copy_str("unknown")),
            IoErrorKind::PermissionDenied => S3Error::AccessDenied,
            IoErrorKind::Other => S3Error::InternalError(text),
        }
    }
}

fn with_suffix(prefix: &str, s: &String) -> (r: String)
    ensures
        r@ == prefix@ + s@,
{
    let mut r = copy_str(prefix);
    push_str(&mut r, s.as_str());
    r
}

} // verus!
