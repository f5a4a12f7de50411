//! Content addressing: a blob is named by the SHA-256 digest of its bytes,
//! in hexadecimal.
use vstd::prelude::*;
use vstd::slice::*;

verus! {

/// The SHA-256 digest of a byte string.
pub uninterp spec fn sha256(data: Seq<u8>) -> Seq<u8>;

/// The lower-case hexadecimal digit of a value below sixteen.
pub open spec fn hex_digit(nibble: int) -> char {
    if nibble == 0 {
        '0'
    } else if nibble == 1 {
        '1'
    } else if nibble == 2 {
        '2'
    } else if nibble == 3 {
        '3'
    } else if nibble == 4 {
        '4'
    } else if nibble == 5 {
        '5'
    } else if nibble == 6 {
        '6'
    } else if nibble == 7 {
        '7'
    } else if nibble == 8 {
        '8'
    } else if nibble == 9 {
        '9'
    } else if nibble == 10 {
        'a'
    } else if nibble == 11 {
        'b'
    } else if nibble == 12 {
        'c'
    } else if nibble == 13 {
        'd'
    } else if nibble == 14 {
        'e'
    } else {
        'f'
    }
}

/// A byte string in lower-case hexadecimal: two digits for each byte, the
/// high half first.
pub open spec fn hex_text(bytes: Seq<u8>) -> Seq<char> {
    Seq::new(
        2 * bytes.len(),
        |i: int|
            if i % 2 == 0 {
                hex_digit(bytes[i / 2] as int / 16)
            } else {
                hex_digit(bytes[i / 2] as int % 16)
            },
    )
}

/// The hexadecimal SHA-256 digest that names the blob of `data`.
pub open spec fn hash_of(data: Seq<u8>) -> Seq<char> {
    hex_text(sha256(data))
}

/// Computes the SHA-256 digest of `data`.
///
/// The call is `sha2::Sha256::digest`, which hashes the whole slice in one
/// go. The contract names the digest and states its length, 32 bytes.
#[verifier::external_body]
fn sha256_digest(data: &[u8]) -> (digest: Vec<u8>)
    ensures
        digest@ == sha256(data@),
        digest@.len() == 32,
{
    <sha2::Sha256 as sha2::Digest>::digest(data).to_vec()
}

/// Writes `bytes` in lower-case hexadecimal.
///
/// The call is `hex::encode`, which maps each byte to two characters of
/// `0123456789abcdef`, the high half first.
#[verifier::external_body]
fn hex_encode(bytes: &[u8]) -> (text: String)
    ensures
        text@ == hex_text(bytes@),
{
    hex::encode(bytes)
}

/// The name under which the blob of `data` is stored: its SHA-256 digest in
/// hexadecimal, 64 characters.
pub fn file_hash(data: &[u8]) -> (hash: String)
    ensures
        hash@ == hash_of(data@),
        hash@.len() == 64,
{
    let digest = sha256_digest(data);
    hex_encode(digest.as_slice())
}

} // verus!
