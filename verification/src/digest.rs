//! The SHA-256 digest, computed by the `crypto_hash` crate.

use vstd::prelude::*;

verus! {

/// The SHA-256 digest of `data`.
pub uninterp spec fn sha256(data: Seq<u8>) -> Seq<u8>;

/// The number of bytes in a SHA-256 digest.
pub const DIGEST_LEN: usize = 32;

/// Calls `crypto_hash::digest` with `Algorithm::SHA256`.
///
/// Trusted: the result is the SHA-256 digest of `data`, a function of `data`
/// alone, and, being a 256-bit digest, it is 32 bytes long. The call panics
/// only where the underlying OpenSSL library itself reports a failure.
#[verifier::external_body]
pub(crate) fn sha256_digest(data: &[u8]) -> (digest: Vec<u8>)
    ensures
        digest@ == sha256(data@),
        digest@.len() == DIGEST_LEN,
{
    crypto_hash::digest(crypto_hash::Algorithm::SHA256, data)
}

} // verus!
