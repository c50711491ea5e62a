//! Digests used for agent identities and trace chaining, as lower-case
//! hexadecimal text.
use vstd::prelude::*;
use sha3::Digest;

verus! {

/// A lower-case hexadecimal digit.
pub open spec fn is_hex_char(c: char) -> bool {
    ('0' <= c && c <= '9') || ('a' <= c && c <= 'f')
}

/// Sixty-four lower-case hexadecimal digits: a 256-bit digest.
pub open spec fn is_digest_text(s: Seq<char>) -> bool {
    s.len() == 64 && forall|i: int| 0 <= i < s.len() ==> is_hex_char(#[trigger] s[i])
}

/// The BLAKE3 digest of some bytes, in hexadecimal.
pub uninterp spec fn blake3_hex_of(data: Seq<u8>) -> Seq<char>;

/// The SHA3-256 digest of some bytes, in hexadecimal.
pub uninterp spec fn sha3_hex_of(data: Seq<u8>) -> Seq<char>;

/// Relies on `blake3::hash` and `blake3::Hash::to_hex`: the 32-byte digest of
/// the bytes, two lower-case hexadecimal digits per byte.
#[verifier::external_body]
pub fn blake3_hex(data: &[u8]) -> (r: String)
    ensures
        r@ == blake3_hex_of(data@),
        is_digest_text(r@),
{
    blake3::hash(data).to_hex().to_string()
}

/// Relies on `sha3::Sha3_256::digest` and the lower-hex formatting of its
/// 32-byte output: two lower-case hexadecimal digits per byte.
#[verifier::external_body]
pub fn sha3_hex(data: &[u8]) -> (r: String)
    ensures
        r@ == sha3_hex_of(data@),
        is_digest_text(r@),
{
    format!("{:x}", sha3::Sha3_256::digest(data))
}

} // verus!
