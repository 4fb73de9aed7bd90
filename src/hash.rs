//! Content identifiers: a BLAKE3 digest rendered in base58.
use vstd::prelude::*;

verus! {

/// The 32-byte BLAKE3 digest of `data`.
pub uninterp spec fn blake3_digest(data: Seq<u8>) -> Seq<u8>;

/// The base58 text (Bitcoin alphabet) of `bytes`.
pub uninterp spec fn base58_text(bytes: Seq<u8>) -> Seq<char>;

/// A character of the Bitcoin base58 alphabet: an ASCII digit or letter other
/// than `0`, `O`, `I` and `l`.
pub open spec fn is_base58_char(c: char) -> bool {
    &&& (('1' <= c <= '9') || ('A' <= c <= 'Z') || ('a' <= c <= 'z'))
    &&& c != 'O' && c != 'I' && c != 'l'
}

/// The identifier of a byte sequence: its digest in base58.
pub open spec fn content_id(data: Seq<u8>) -> Seq<char> {
    base58_text(blake3_digest(data))
}

/// Relies on `blake3::hash`: the digest depends on the input bytes alone.
#[verifier::external_body]
fn blake3_hash(data: &[u8]) -> (r: [u8; 32])
    ensures
        r@ == blake3_digest(data@),
{
    *blake3::hash(data).as_bytes()
}

/// Relies on `bs58::encode(..).into_string()` with its default (Bitcoin)
/// alphabet: the text depends on the bytes alone and uses only that alphabet;
/// 32 bytes give between 1 and 44 digits (`ceil(32 * log 256 / log 58)`).
#[verifier::external_body]
fn base58_encode(bytes: &[u8]) -> (r: String)
    ensures
        r@ == base58_text(bytes@),
        bytes@.len() == 32 ==> 1 <= r@.len() <= 44,
        forall|i: int| 0 <= i < r@.len() ==> is_base58_char(#[trigger] r@[i]),
{
    bs58::encode(bytes).into_string()
}

/// The identifier of `data`: its BLAKE3 digest in base58. Used both for
/// symbol file names and for block integrity hashes.
pub fn get_hash_as_b58(data: &[u8]) -> (r: String)
    ensures
        r@ == content_id(data@),
        1 <= r@.len() <= 44,
        forall|i: int| 0 <= i < r@.len() ==> is_base58_char(#[trigger] r@[i]),
{
    let digest = blake3_hash(data);
    base58_encode(digest.as_slice())
}

} // verus!
