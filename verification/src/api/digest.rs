//! Content signatures: the lower-case hexadecimal SHA-256 digest of a byte
//! string, used as cache keys for audio files and translation requests.
use vstd::prelude::*;
use sha2::Digest;

verus! {

/// The SHA-256 digest of `data`.
pub uninterp spec fn sha256(data: Seq<u8>) -> Seq<u8>;

/// Computes the SHA-256 digest of `data`.
///
/// Trusted: calls `sha2::Sha256::digest`; the result depends on `data`
/// alone and is named `sha256`; a SHA-256 digest is 32 bytes long.
#[verifier::external_body]
fn sha256_digest(data: &[u8]) -> (r: Vec<u8>)
    ensures
        r@ == sha256(data@),
        r@.len() == 32,
{
    sha2::Sha256::digest(data).to_vec()
}

/// The lower-case hexadecimal digit of `d` (0 to 15).
pub open spec fn hex_digit(d: int) -> char {
    if d < 10 {
        ((d + 48) as u8) as char
    } else {
        ((d - 10 + 97) as u8) as char
    }
}

/// The lower-case hexadecimal text of `data`: two digits per byte, high
/// nibble first.
pub open spec fn hex_lower(data: Seq<u8>) -> Seq<char>
    decreases data.len(),
{
    if data.len() == 0 {
        Seq::empty()
    } else {
        seq![hex_digit(data[0] as int / 16), hex_digit(data[0] as int % 16)] + hex_lower(
            data.subrange(1, data.len() as int),
        )
    }
}

/// Encodes `data` as lower-case hexadecimal text.
///
/// Trusted: calls `hex::encode`, which writes each byte as two characters
/// from `0123456789abcdef`, high nibble first; the contract states that.
#[verifier::external_body]
fn hex_encode(data: &[u8]) -> (r: String)
    ensures
        r@ == hex_lower(data@),
{
    hex::encode(data)
}

proof fn lemma_hex_lower_len(data: Seq<u8>)
    ensures
        hex_lower(data).len() == 2 * data.len(),
    decreases data.len(),
{
    if data.len() > 0 {
        lemma_hex_lower_len(data.subrange(1, data.len() as int));
    }
}

/// The lower-case hexadecimal SHA-256 digest of `data` (64 characters).
pub fn hex_sha256(data: &[u8]) -> (r: String)
    ensures
        r@ == hex_lower(sha256(data@)),
        r@.len() == 64,
{
    let digest = sha256_digest(data);
    proof {
        lemma_hex_lower_len(digest@);
    }
    hex_encode(digest.as_slice())
}

} // verus!
