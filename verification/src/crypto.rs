//! Hashing, signatures and randomness, as provided by the `blake3`,
//! `ed25519-dalek`, `rand` and `uuid` crates.

use vstd::prelude::*;
use ed25519_dalek::{Signer, Verifier};

verus! {

/// The 32-byte BLAKE3 digest of `data`.
pub uninterp spec fn blake3_digest(data: Seq<u8>) -> Seq<u8>;

/// The Ed25519 public key (compressed point) belonging to a 32-byte secret key.
pub uninterp spec fn ed25519_public_key(secret: Seq<u8>) -> Seq<u8>;

/// The Ed25519 signature of `msg` under the 32-byte secret key `secret`.
pub uninterp spec fn ed25519_signature(secret: Seq<u8>, msg: Seq<u8>) -> Seq<u8>;

/// Whether Ed25519 verification accepts `sig` on `msg` for the public key `pk`.
pub uninterp spec fn ed25519_accepts(pk: Seq<u8>, msg: Seq<u8>, sig: Seq<u8>) -> bool;

/// Calls `blake3::hash`; the result is the digest's 32 bytes. BLAKE3 is a
/// deterministic function of its input, which the contract names.
#[verifier::external_body]
pub(crate) fn blake3_hash(data: &[u8]) -> (h: [u8; 32])
    ensures
        h@ == blake3_digest(data@),
{
    *blake3::hash(data).as_bytes()
}

/// Calls `ed25519_dalek::SigningKey::generate` with the operating system's
/// random source and hands back the new secret key's bytes. The key is random:
/// nothing is claimed of it.
#[verifier::external_body]
pub(crate) fn ed25519_random_secret() -> (secret: [u8; 32]) {
    ed25519_dalek::SigningKey::generate(&mut rand::rngs::OsRng).to_bytes()
}

/// Calls `SigningKey::from_bytes` and `verifying_key` on a secret key: the
/// result is the public key's compressed bytes, a deterministic function of
/// the secret that the contract names.
#[verifier::external_body]
pub(crate) fn ed25519_public(secret: &[u8; 32]) -> (pk: [u8; 32])
    ensures
        pk@ == ed25519_public_key(secret@),
{
    ed25519_dalek::SigningKey::from_bytes(secret).verifying_key().to_bytes()
}

/// Calls `SigningKey::sign` (Ed25519 signing is deterministic). Besides naming
/// the signature, the contract claims the documented correctness of the
/// scheme: verification with the secret's own public key accepts it.
#[verifier::external_body]
pub(crate) fn ed25519_sign(secret: &[u8; 32], msg: &[u8]) -> (sig: [u8; 64])
    ensures
        sig@ == ed25519_signature(secret@, msg@),
        ed25519_accepts(ed25519_public_key(secret@), msg@, sig@),
{
    ed25519_dalek::SigningKey::from_bytes(secret).sign(msg).to_bytes()
}

/// Calls `VerifyingKey::from_bytes` and `verify`: true exactly when the bytes
/// are a valid public key and the signature verifies on the message. The
/// outcome is a function of the three arguments, which the contract names.
#[verifier::external_body]
pub(crate) fn ed25519_verify(pk: &[u8; 32], msg: &[u8], sig: &[u8; 64]) -> (ok: bool)
    ensures
        ok == ed25519_accepts(pk@, msg@, sig@),
{
    match ed25519_dalek::VerifyingKey::from_bytes(pk) {
        Ok(key) => key.verify(msg, &ed25519_dalek::Signature::from_bytes(sig)).is_ok(),
        Err(_) => false,
    }
}

/// Calls `uuid::Uuid::new_v4` and hands back the UUID's 16 bytes. The value is
/// random; the contract claims only the version and variant bits that
/// `new_v4` always sets (version 4, RFC 4122 variant).
#[verifier::external_body]
pub(crate) fn uuid_v4_bytes() -> (b: [u8; 16])
    ensures
        b@[6] & 0xf0u8 == 0x40u8,
        b@[8] & 0xc0u8 == 0x80u8,
{
    uuid::Uuid::new_v4().into_bytes()
}

} // verus!
