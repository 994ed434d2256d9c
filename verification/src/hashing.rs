//! Trusted boundary to the content-hash functions. Each digest is a pure
//! function of the input bytes, so the hex text of each is given a name
//! that the callers' contracts are stated over.

use vstd::prelude::*;
use sha3::Digest;

verus! {

/// The lowercase hex text of the SHA3-256 digest of a byte sequence:
/// 64 characters, a pure function of the bytes.
pub uninterp spec fn sha3_hex_of(data: Seq<u8>) -> Seq<char>;

/// Relies on sha3's Sha3_256::digest (a 32-byte digest, a pure function
/// of the input) and hex's encode (two lowercase hex digits per byte).
#[verifier::external_body]
pub(crate) fn sha3_hex(data: &[u8]) -> (r: String)
    ensures
        r@ == sha3_hex_of(data@),
        r@.len() == 64,
{
    hex::encode(sha3::Sha3_256::digest(data))
}

/// The lowercase hex text of the MD5 digest of a byte sequence:
/// 32 characters, a pure function of the bytes.
pub uninterp spec fn md5_hex_of(data: Seq<u8>) -> Seq<char>;

/// Relies on the md5 crate's compute (a 16-byte digest, a pure function
/// of the input), rendered as lowercase hex by the crate's LowerHex
/// implementation.
#[verifier::external_body]
pub(crate) fn md5_hex(data: &[u8]) -> (r: String)
    ensures
        r@ == md5_hex_of(data@),
        r@.len() == 32,
{
    format!("{:x}", md5::compute(data))
}

} // verus!
