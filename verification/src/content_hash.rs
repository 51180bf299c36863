//! The fingerprint of a page body: its SHA-256 digest in lowercase
//! hexadecimal. The digest is computed by the `sha2` crate.

use vstd::prelude::*;
use vstd::utf8::encode_utf8;
use crate::numbers::{digit, hex_digit};

verus! {

/// The SHA-256 digest of a byte string as `sha2::Sha256::digest` computes
/// it.
pub uninterp spec fn sha256_digest(data: Seq<u8>) -> Seq<u8>;

/// Calls `sha2::Sha256::digest` on `data` and copies the digest out. The
/// digest has 32 bytes, the size of the output type of `sha2::Sha256`.
#[verifier::external_body]
fn sha256(data: &[u8]) -> (r: Vec<u8>)
    ensures
        r@ == sha256_digest(data@),
        r@.len() == 32,
{
    <sha2::Sha256 as sha2::Digest>::digest(data).to_vec()
}

/// The bytes written as two lowercase hexadecimal digits each.
pub open spec fn hex_lower(bytes: Seq<u8>) -> Seq<char>
    decreases bytes.len(),
{
    if bytes.len() == 0 {
        Seq::empty()
    } else {
        hex_lower(bytes.drop_last()).push(hex_digit(bytes.last() as int / 16)).push(
            hex_digit(bytes.last() as int % 16),
        )
    }
}

/// The fingerprint of a text: the SHA-256 digest of its UTF-8 encoding, in
/// lowercase hexadecimal.
pub open spec fn fingerprint(text: Seq<char>) -> Seq<char> {
    hex_lower(sha256_digest(encode_utf8(text)))
}

/// Every byte gives two digits.
pub proof fn lemma_hex_lower_len(bytes: Seq<u8>)
    ensures
        hex_lower(bytes).len() == 2 * bytes.len(),
    decreases bytes.len(),
{
    if bytes.len() > 0 {
        lemma_hex_lower_len(bytes.drop_last());
    }
}

/// Writes bytes as lowercase hexadecimal digits.
pub fn to_hex(bytes: &Vec<u8>) -> (r: String)
    ensures
        r@ == hex_lower(bytes@),
{
    let mut r = String::new();
    let mut i: usize = 0;
    while i < bytes.len()
        invariant
            i <= bytes.len(),
            r@ == hex_lower(bytes@.take(i as int)),
        decreases bytes.len() - i,
    {
        let b = bytes[i];
        proof {
            assert(bytes@.take(i + 1).drop_last() == bytes@.take(i as int));
            assert(bytes@.take(i + 1).last() == b);
        }
        r.push(digit(b / 16));
        r.push(digit(b % 16));
        i += 1;
    }
    assert(bytes@.take(bytes.len() as int) == bytes@);
    r
}

/// The fingerprint of a page body: 64 hexadecimal digits.
pub fn content_hash(body: &str) -> (r: String)
    ensures
        r@ == fingerprint(body@),
        r@.len() == 64,
{
    let digest = sha256(body.as_bytes());
    proof {
        lemma_hex_lower_len(digest@);
    }
    to_hex(&digest)
}

} // verus!
