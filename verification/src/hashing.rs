//! Content hashing of the store file: the SHA-256 digest, rendered as
//! lowercase hex, under which replicas compare their store files.

use vstd::prelude::*;

verus! {

/// The SHA-256 digest of a byte sequence. The digest depends on the bytes
/// alone, so equal store files always hash equal.
pub uninterp spec fn sha256_of(b: Seq<u8>) -> Seq<u8>;

/// The lowercase hexadecimal digit for a value in `[0, 16)`.
pub open spec fn hex_digit(n: int) -> char {
    "0123456789abcdef"@[n]
}

/// Lowercase hexadecimal rendering: two digits per byte, high nibble
/// first.
pub open spec fn hex_of(b: Seq<u8>) -> Seq<char> {
    Seq::new(
        b.len() * 2,
        |i: int|
            if i % 2 == 0 {
                hex_digit((b[i / 2] as int) / 16)
            } else {
                hex_digit((b[i / 2] as int) % 16)
            },
    )
}

/// Relies on sha2's `Sha256`: a 32-byte digest computed from the input
/// bytes alone.
#[verifier::external_body]
fn sha256(bytes: &Vec<u8>) -> (r: Vec<u8>)
    ensures
        r@ == sha256_of(bytes@),
        r@.len() == 32,
{
    let digest = <sha2::Sha256 as sha2::Digest>::digest(bytes.as_slice());
    digest.to_vec()
}

/// Relies on hex::encode: two lowercase hexadecimal digits per input byte,
/// high nibble first.
#[verifier::external_body]
fn hex_encode(bytes: &Vec<u8>) -> (r: String)
    ensures
        r@ == hex_of(bytes@),
{
    hex::encode(bytes.as_slice())
}

/// The content hash of a store file: the SHA-256 digest of its bytes as
/// 64 lowercase hex digits.
pub fn compute_db_hash(bytes: &Vec<u8>) -> (r: String)
    ensures
        r@ == hex_of(sha256_of(bytes@)),
        r@.len() == 64,
{
    let digest = sha256(bytes);
    hex_encode(&digest)
}

} // verus!
