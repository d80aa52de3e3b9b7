//! The message authentication primitives that webhook signatures rest on.
use vstd::prelude::*;

use hmac::{Hmac, Mac};
use sha2::Sha256;

use crate::text::hex_lower;

verus! {

/// The HMAC-SHA256 tag of `message` under `key`, as the `hmac` and `sha2` crates compute it.
pub uninterp spec fn hmac_sha256_spec(key: Seq<u8>, message: Seq<u8>) -> Seq<u8>;

/// Computes HMAC-SHA256 with `hmac::Hmac<sha2::Sha256>`: `new_from_slice`, `update`,
/// `finalize`. The contract claims that the tag is the named result for these bytes, that it
/// is 32 bytes long (the output size of `Sha256`), and that a key is always accepted: in hmac
/// 0.12.1 `new_from_slice` returns `Ok` for a key of any length (longer keys are hashed
/// first). Nothing is stated of the tag's bytes beyond the name.
#[verifier::external_body]
pub(crate) fn hmac_sha256(key: &[u8], message: &[u8]) -> (r: Option<Vec<u8>>)
    ensures
        r is Some,
        r matches Some(tag) ==> tag@ == hmac_sha256_spec(key@, message@),
        r matches Some(tag) ==> tag@.len() == 32,
{
    match <Hmac<Sha256> as Mac>::new_from_slice(key) {
        Ok(mut mac) => {
            mac.update(message);
            Some(mac.finalize().into_bytes().to_vec())
        },
        Err(_) => None,
    }
}

/// Lowercase hexadecimal text of `bytes`, by `hex::encode`. The contract claims what the
/// crate's source shows: two lowercase digits per byte, high nibble first.
#[verifier::external_body]
pub(crate) fn hex_encode(bytes: &[u8]) -> (r: String)
    ensures
        r@ == hex_lower(bytes@),
{
    hex::encode(bytes)
}

} // verus!
