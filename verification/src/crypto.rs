//! Digests, MACs and hex encoding, computed by the `sha2`, `hmac`, `md-5` and
//! `hex` crates.

use vstd::prelude::*;
use hmac::Mac;
use sha2::Digest;

verus! {

/// The SHA-256 digest of a byte sequence (FIPS 180-4), as `sha2` computes it.
pub uninterp spec fn sha256(data: Seq<u8>) -> Seq<u8>;

/// HMAC-SHA256 (RFC 2104) of `data` under `key`, as `hmac` computes it.
pub uninterp spec fn hmac_sha256(key: Seq<u8>, data: Seq<u8>) -> Seq<u8>;

/// The MD5 digest of a byte sequence (RFC 1321), as `md-5` computes it.
pub uninterp spec fn md5(data: Seq<u8>) -> Seq<u8>;

/// Lower-case hexadecimal digit for a value below 16.
pub open spec fn hex_digit_lower(d: int) -> char {
    if d < 10 {
        (48 + d) as char
    } else {
        (87 + d) as char
    }
}

/// Upper-case hexadecimal digit for a value below 16.
pub open spec fn hex_digit_upper(d: int) -> char {
    if d < 10 {
        (48 + d) as char
    } else {
        (55 + d) as char
    }
}

/// Lower-case hex encoding: two digits per byte, high nibble first.
pub open spec fn hex_lower(b: Seq<u8>) -> Seq<char>
    decreases b.len(),
{
    if b.len() == 0 {
        Seq::empty()
    } else {
        hex_lower(b.drop_last()) + seq![
            hex_digit_lower(b.last() as int / 16),
            hex_digit_lower(b.last() as int % 16),
        ]
    }
}

/// A lower-case hexadecimal digit: `0`-`9` or `a`-`f`.
pub open spec fn is_lower_hex_digit(c: char) -> bool {
    ('0' <= c && c <= '9') || ('a' <= c && c <= 'f')
}

/// Lower-case hex has two digits per byte, each a lower-case hex digit.
pub proof fn lemma_hex_lower_shape(b: Seq<u8>)
    ensures
        hex_lower(b).len() == 2 * b.len(),
        forall|i: int| 0 <= i < hex_lower(b).len() ==> is_lower_hex_digit(#[trigger] hex_lower(b)[i]),
    decreases b.len(),
{
    if b.len() > 0 {
        lemma_hex_lower_shape(b.drop_last());
        let h = hex_lower(b);
        let t = hex_lower(b.drop_last());
        let x = b.last() as int;
        assert(0 <= x / 16 < 16 && 0 <= x % 16 < 16);
        assert forall|i: int| 0 <= i < h.len() implies is_lower_hex_digit(#[trigger] h[i]) by {
            if i < t.len() {
                assert(h[i] == t[i]);
            }
        }
    }
}

/// `Sha256::digest` of `sha2`: the 32-byte SHA-256 digest of `data`.
#[verifier::external_body]
pub(crate) fn sha256_digest(data: &[u8]) -> (r: Vec<u8>)
    ensures
        r@ == sha256(data@),
        r@.len() == 32,
{
    sha2::Sha256::digest(data).to_vec()
}

/// `Hmac::<Sha256>::new_from_slice`, `update` and `finalize` of `hmac`: the
/// 32-byte HMAC-SHA256 tag of `data` under `key`. `new_from_slice` accepts keys
/// of every length for this MAC, so the `expect` never fires.
#[verifier::external_body]
pub(crate) fn hmac_bytes(key: &[u8], data: &[u8]) -> (r: Vec<u8>)
    ensures
        r@ == hmac_sha256(key@, data@),
        r@.len() == 32,
{
    let mut mac = <hmac::Hmac<sha2::Sha256> as Mac>::new_from_slice(key).expect("HMAC key");
    mac.update(data);
    mac.finalize().into_bytes().to_vec()
}

/// `Md5::digest` of `md-5`: the 16-byte MD5 digest of `data`.
#[verifier::external_body]
pub(crate) fn md5_digest(data: &[u8]) -> (r: Vec<u8>)
    ensures
        r@ == md5(data@),
        r@.len() == 16,
{
    md5::Md5::digest(data).to_vec()
}

/// `hex::encode`: lower-case hex, two characters per byte.
#[verifier::external_body]
pub(crate) fn hex_encode(data: &[u8]) -> (r: String)
    ensures
        r@ == hex_lower(data@),
{
    hex::encode(data)
}

} // verus!
