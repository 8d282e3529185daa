//! The cryptographic capabilities the epoch protocol consumes: Keccak-256
//! digests, a deterministic recoverable signature under the persistent
//! signing identity, and the hardware random source.
//!
//! The calls into the outside crates stand behind trusted wrappers; the
//! digest and the signature are named by uninterpreted functions, so every
//! contract above them is exact in those names without restating the
//! algorithms.

use vstd::prelude::*;

verus! {

/// The Keccak-256 digest of a byte string: 32 bytes, a function of the
/// input alone.
pub uninterp spec fn keccak_of(data: Seq<u8>) -> Seq<u8>;

/// The 65-byte recoverable secp256k1 signature (r, s, recovery id) that the
/// given signing key produces over a 32-byte digest; deterministic in the
/// key and the digest alone.
pub uninterp spec fn sig_of(key: Seq<u8>, digest: Seq<u8>) -> Seq<u8>;

/// Whether 32 bytes are a valid secp256k1 secret scalar — what
/// `SecretKey::parse` accepts, a function of the key bytes alone.
pub uninterp spec fn key_ok(key: Seq<u8>) -> bool;

/// Relies on tiny_keccak's `Keccak::v256` with `Hasher::update` and
/// `Hasher::finalize`: the 32-byte digest depends on the input bytes alone.
#[verifier::external_body]
pub(crate) fn keccak256(data: &[u8]) -> (r: [u8; 32])
    ensures
        r@ == keccak_of(data@),
{
    let mut hasher = tiny_keccak::Keccak::v256();
    tiny_keccak::Hasher::update(&mut hasher, data);
    let mut out = [0u8; 32];
    tiny_keccak::Hasher::finalize(hasher, &mut out);
    out
}

/// Relies on libsecp256k1's `SecretKey::parse`, `Message::parse` and `sign`:
/// signing is deterministic (RFC 6979) in the key and digest alone, and
/// fails exactly when `SecretKey::parse` refuses the key — which depends
/// on the key bytes alone.
#[verifier::external_body]
pub(crate) fn sign_recoverable(key: &[u8; 32], digest: &[u8; 32]) -> (r: Option<[u8; 65]>)
    ensures
        r is Some <==> key_ok(key@),
        r matches Some(sig) ==> sig@ == sig_of(key@, digest@),
{
    let seckey = match libsecp256k1::SecretKey::parse(key) {
        Ok(k) => k,
        Err(_) => return None,
    };
    let msg = libsecp256k1::Message::parse(digest);
    let (sig, rec) = libsecp256k1::sign(&msg, &seckey);
    let mut out = [0u8; 65];
    out[..64].copy_from_slice(&sig.serialize());
    out[64] = rec.serialize();
    Some(out)
}

/// Relies on getrandom::fill for the hardware random source; nothing is
/// assumed of the bytes drawn.
#[verifier::external_body]
pub(crate) fn random_bytes32() -> (r: Option<[u8; 32]>) {
    let mut b = [0u8; 32];
    match getrandom::fill(&mut b) {
        Ok(()) => Some(b),
        Err(_) => None,
    }
}

} // verus!
