//! Ed25519 keys and signatures, computed by the `ed25519-dalek` crate.
//!
//! Keys travel through the library as plain bytes: a 32-byte secret key and a
//! 32-byte compressed public key.
use ed25519_dalek::{Signature, Signer, SigningKey, Verifier, VerifyingKey};
use crate::hashing::{hex_encode, hex_lower};
use crate::text::push_str;
use vstd::prelude::*;

verus! {

/// The public key that `ed25519_dalek::SigningKey::verifying_key` derives from
/// the 32-byte secret `secret`, in its compressed 32-byte form.
pub uninterp spec fn ed25519_public_key(secret: Seq<u8>) -> Seq<u8>;

/// The signature that `ed25519_dalek::SigningKey::sign` produces for `msg`
/// under the secret `secret` (Ed25519 signing is deterministic, RFC 8032).
pub uninterp spec fn ed25519_signature(secret: Seq<u8>, msg: Seq<u8>) -> Seq<u8>;

/// Whether `ed25519_dalek::VerifyingKey::from_bytes(public)` succeeds and the
/// resulting key accepts `sig` over `msg` (`Verifier::verify` returns `Ok`).
pub uninterp spec fn ed25519_verifies(public: Seq<u8>, msg: Seq<u8>, sig: Seq<u8>) -> bool;

/// Whether `ed25519_dalek::VerifyingKey::from_bytes(public)` succeeds: the
/// 32 bytes decompress to a curve point the crate accepts as a public key.
pub uninterp spec fn ed25519_public_decodes(public: Seq<u8>) -> bool;

/// Calls `VerifyingKey::from_bytes` on `public`.
///
/// Trusted: the result tells whether the crate accepts the bytes as a public
/// key; nothing more is claimed of which byte strings those are.
#[verifier::external_body]
pub(crate) fn ed25519_key_decodes(public: &[u8; 32]) -> (ok: bool)
    ensures
        ok == ed25519_public_decodes(public@),
{
    VerifyingKey::from_bytes(public).is_ok()
}

/// Calls `SigningKey::from_bytes`, then `SigningKey::verifying_key` and
/// `VerifyingKey::to_bytes`.
///
/// Trusted: the result is the compressed public key the crate derives from
/// `secret`, the key that `ed25519_public_key` names.
#[verifier::external_body]
pub(crate) fn ed25519_public_of(secret: &[u8; 32]) -> (p: [u8; 32])
    ensures
        p@ == ed25519_public_key(secret@),
{
    SigningKey::from_bytes(secret).verifying_key().to_bytes()
}

/// Calls `Signer::sign` of `SigningKey` on `msg`.
///
/// Trusted: the result is the deterministic Ed25519 signature of `msg` under
/// `secret`, and (as the crate documents) the public key derived from the
/// same secret accepts it.
#[verifier::external_body]
pub(crate) fn ed25519_sign(secret: &[u8; 32], msg: &[u8]) -> (sig: [u8; 64])
    ensures
        sig@ == ed25519_signature(secret@, msg@),
        ed25519_verifies(ed25519_public_key(secret@), msg@, sig@),
{
    SigningKey::from_bytes(secret).sign(msg).to_bytes()
}

/// Calls `VerifyingKey::from_bytes` and then `Verifier::verify` of
/// `VerifyingKey`.
///
/// Trusted: the result tells whether the public key decodes and accepts the
/// signature over `msg`; a key that does not decode yields `false`.
#[verifier::external_body]
pub(crate) fn ed25519_verify(public: &[u8; 32], msg: &[u8], sig: &[u8; 64]) -> (ok: bool)
    ensures
        ok == ed25519_verifies(public@, msg@, sig@),
{
    match VerifyingKey::from_bytes(public) {
        Ok(key) => key.verify(msg, &Signature::from_bytes(sig)).is_ok(),
        Err(_) => false,
    }
}

/// A key pair's public half and the names its two files take in the key
/// directory: both are named by the public key's fingerprint.
pub struct KeyPairFiles {
    /// The compressed public key derived from the secret.
    pub public_key: [u8; 32],
    /// The public key in lowercase hexadecimal.
    pub fingerprint: String,
    /// `<fingerprint>.key`, which holds the secret key.
    pub private_key_file: String,
    /// `<fingerprint>.pub`, which holds the public key.
    pub public_key_file: String,
}

/// The public key of the secret `secret` and the file names of the pair.
pub fn key_pair_files(secret: &[u8; 32]) -> (k: KeyPairFiles)
    ensures
        k.public_key@ == ed25519_public_key(secret@),
        k.fingerprint@ == hex_lower(k.public_key@),
        k.private_key_file@ == k.fingerprint@ + ".key"@,
        k.public_key_file@ == k.fingerprint@ + ".pub"@,
{
    let public_key = ed25519_public_of(secret);
    let fingerprint = hex_encode(&public_key);
    let mut private_key_file = fingerprint.clone();
    push_str(&mut private_key_file, ".key");
    let mut public_key_file = fingerprint.clone();
    push_str(&mut public_key_file, ".pub");
    KeyPairFiles { public_key, fingerprint, private_key_file, public_key_file }
}

} // verus!
