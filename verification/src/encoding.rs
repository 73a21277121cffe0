//! Base64, digests and text encodings, as the crates for them have them.

use base64::Engine;
use rsa::sha2::{Digest, Sha256};
use vstd::prelude::*;
use vstd::utf8::{decode_utf8, valid_utf8};

verus! {

/// What the standard padded alphabet decodes a text to; `None` where the text
/// is no valid encoding.
pub uninterp spec fn base64_decoded(s: Seq<char>) -> Option<Seq<u8>>;

/// Bytes in the standard padded alphabet.
pub uninterp spec fn base64_encoded(b: Seq<u8>) -> Seq<char>;

/// Bytes in the URL-safe alphabet, without padding.
pub uninterp spec fn base64url_encoded(b: Seq<u8>) -> Seq<char>;

pub open spec fn opt_bytes(b: Option<Vec<u8>>) -> Option<Seq<u8>> {
    match b {
        Some(v) => Some(v@),
        None => None,
    }
}

/// `STANDARD.decode` of the `base64` crate: its result depends on the text
/// alone. Which texts are valid, and to what they decode, is left to the name.
#[verifier::external_body]
pub(crate) fn base64_decode(s: &str) -> (r: Option<Vec<u8>>)
    ensures
        opt_bytes(r) == base64_decoded(s@),
{
    base64::engine::general_purpose::STANDARD.decode(s).ok()
}

/// `STANDARD.encode` of the `base64` crate: its result depends on the bytes
/// alone, and decoding it gives the bytes back.
#[verifier::external_body]
pub(crate) fn base64_encode(b: &[u8]) -> (r: String)
    ensures
        r@ == base64_encoded(b@),
        base64_decoded(r@) == Some(b@),
{
    base64::engine::general_purpose::STANDARD.encode(b)
}

/// `URL_SAFE_NO_PAD.encode` of the `base64` crate: its result depends on the
/// bytes alone and holds letters, digits, `-` and `_` only, so neither padding
/// nor anything that would need escaping in a URL. Three bytes make four
/// characters; one or two left over make two or three.
#[verifier::external_body]
pub(crate) fn base64url_encode(b: &[u8]) -> (r: String)
    ensures
        r@ == base64url_encoded(b@),
        forall|i: int| 0 <= i < r@.len() ==> url_safe(#[trigger] r@[i]),
        r@.len() == (4 * b@.len() + 2) / 3,
{
    base64::engine::general_purpose::URL_SAFE_NO_PAD.encode(b)
}

/// The SHA-256 digest of bytes.
pub uninterp spec fn sha256_of(b: Seq<u8>) -> Seq<u8>;

/// `Sha256::digest` of the `sha2` crate: it depends on the bytes alone and is
/// 32 bytes long.
#[verifier::external_body]
pub(crate) fn sha256(b: &[u8]) -> (r: Vec<u8>)
    ensures
        r@ == sha256_of(b@),
        r@.len() == 32,
{
    Sha256::digest(b).to_vec()
}

/// What bytes say in UTF-8, where they are UTF-8.
pub open spec fn utf8_text(b: Seq<u8>) -> Option<Seq<char>> {
    if valid_utf8(b) {
        Some(decode_utf8(b))
    } else {
        None
    }
}

/// `String::from_utf8`: the text of the bytes, or nothing where they are not
/// UTF-8.
#[verifier::external_body]
pub(crate) fn from_utf8(b: Vec<u8>) -> (r: Option<String>)
    ensures
        crate::model::opt_text(r) == utf8_text(b@),
{
    String::from_utf8(b).ok()
}

pub open spec fn url_safe(c: char) -> bool {
    crate::text::is_ascii_letter(c) || crate::text::is_digit(c) || c == '-' || c == '_'
}

} // verus!
