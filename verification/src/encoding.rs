//! Bytes as text.
use vstd::prelude::*;
use base64ct::Encoding;

verus! {

/// Bytes in padded base64.
pub uninterp spec fn base64_of(bytes: Seq<u8>) -> Seq<char>;

/// The bytes that a text in padded base64 spells, if it does.
pub uninterp spec fn base64_bytes(text: Seq<char>) -> Option<Seq<u8>>;

/// Bytes as text, by `base64ct::Base64::encode_string`. The crate refuses more
/// than a quarter of what can be addressed, so this asks for no more. What it
/// writes, `base64ct::Base64::decode_vec` reads back.
#[verifier::external_body]
pub(crate) fn base64_text(bytes: &[u8]) -> (r: String)
    requires
        bytes@.len() <= usize::MAX / 4,
    ensures
        r@ == base64_of(bytes@),
        base64_bytes(r@) == Some(bytes@),
{
    base64ct::Base64::encode_string(bytes)
}

/// The bytes of a text, by `base64ct::Base64::decode_vec`.
#[verifier::external_body]
pub(crate) fn base64_decode(text: &str) -> (r: Option<Vec<u8>>)
    ensures
        (match r {
            Some(bytes) => Some(bytes@),
            None => None,
        }) == base64_bytes(text@),
{
    base64ct::Base64::decode_vec(text).ok()
}

} // verus!
