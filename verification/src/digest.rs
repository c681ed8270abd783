use vstd::prelude::*;
use vstd::utf8::valid_utf8;
use sha2::Digest;

use crate::bytes::text_bytes;

verus! {

/// The SHA-256 digest of a byte string.
pub uninterp spec fn sha256(bytes: Seq<u8>) -> Seq<u8>;

/// Content identity of a byte string: `sha2::Sha256::digest`, which returns the 32-byte
/// SHA-256 digest of exactly the bytes given.
#[verifier::external_body]
pub(crate) fn content_digest(bytes: &[u8]) -> (digest: Vec<u8>)
    ensures
        digest@ == sha256(bytes@),
        digest@.len() == 32,
{
    sha2::Sha256::digest(bytes).to_vec()
}

/// `std::str::from_utf8`: the text of the bytes when they are valid UTF-8, else nothing.
#[verifier::external_body]
pub(crate) fn utf8_text(bytes: &[u8]) -> (text: Option<String>)
    ensures
        text is Some <==> valid_utf8(bytes@),
        text matches Some(t) ==> text_bytes(t@) == bytes@,
{
    match std::str::from_utf8(bytes) {
        Ok(value) => Some(value.to_owned()),
        Err(_) => None,
    }
}

} // verus!
