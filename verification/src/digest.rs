//! Integrity hashes: SHA-256 through `sha2`, written in hexadecimal through
//! `hex`.

use vstd::prelude::*;
use crate::text::digit_char;

verus! {

/// The SHA-256 digest of `data`, as `sha2` computes it.
pub uninterp spec fn sha256_of(data: Seq<u8>) -> Seq<u8>;

/// The character that writes the hexadecimal digit `d` in lower case.
pub open spec fn hex_digit(d: int) -> char {
    if d == 10 {
        'a'
    } else if d == 11 {
        'b'
    } else if d == 12 {
        'c'
    } else if d == 13 {
        'd'
    } else if d == 14 {
        'e'
    } else if d == 15 {
        'f'
    } else {
        digit_char(d)
    }
}

/// The bytes of `data` in hexadecimal: two lower-case digits for each byte,
/// the high half first.
pub open spec fn hex_text(data: Seq<u8>) -> Seq<char> {
    Seq::new(
        2 * data.len(),
        |i: int|
            if i % 2 == 0 {
                hex_digit(data[i / 2] as int / 16)
            } else {
                hex_digit(data[i / 2] as int % 16)
            },
    )
}

/// `sha2::Sha256::digest`, copied into a `Vec`. Nothing is proved of it; the
/// contract names the digest and states its length, 32 bytes.
#[verifier::external_body]
pub(crate) fn sha256(data: &[u8]) -> (digest: Vec<u8>)
    ensures
        digest@ == sha256_of(data@),
        digest@.len() == 32,
{
    <sha2::Sha256 as sha2::Digest>::digest(data).to_vec()
}

/// `hex::encode`. Nothing is proved of it; the contract states what the
/// crate documents: each byte becomes two lower-case hexadecimal digits.
#[verifier::external_body]
pub(crate) fn hex_encode(data: &[u8]) -> (text: String)
    ensures
        text@ == hex_text(data@),
{
    hex::encode(data)
}

/// The hash that a manifest gives for a file with the content `data`.
pub open spec fn file_hash_of(data: Seq<u8>) -> Seq<char> {
    hex_text(sha256_of(data))
}

/// The hash that a manifest gives for a file: its SHA-256 digest in
/// lower-case hexadecimal.
pub fn file_hash(data: &[u8]) -> (hash: String)
    ensures
        hash@ == file_hash_of(data@),
        hash@.len() == 64,
{
    let digest = sha256(data);
    hex_encode(digest.as_slice())
}

} // verus!
