//! SHA-256 digests, as bytes and in hexadecimal.

use crate::text::{hex_text, lemma_hex_text_len, to_hex};
use sha2::{Digest, Sha256};
use vstd::prelude::*;
use vstd::string::StrSliceExecFns;
use vstd::utf8::encode_utf8;

verus! {

/// The SHA-256 digest of a byte string.
pub uninterp spec fn sha256_digest(data: Seq<u8>) -> Seq<u8>;

/// Trusted: `Sha256::digest`, a function of the data alone.
#[verifier::external_body]
fn sha256(data: &[u8]) -> (digest: [u8; 32])
    ensures
        digest@ == sha256_digest(data@),
{
    Sha256::digest(data).into()
}

/// The SHA-256 digest of the UTF-8 bytes of `text`, in lower-case hexadecimal.
pub open spec fn text_digest(text: Seq<char>) -> Seq<char> {
    hex_text(sha256_digest(encode_utf8(text)))
}

/// Hashes the UTF-8 bytes of `text` and writes the digest as 64 hexadecimal
/// characters.
pub fn hash_text(text: &str) -> (hash: String)
    ensures
        hash@ == text_digest(text@),
        hash@.len() == 64,
{
    let bytes = text.as_bytes_vec();
    let digest = sha256(bytes.as_slice());
    proof {
        lemma_hex_text_len(digest@);
    }
    to_hex(digest.as_slice())
}

} // verus!
