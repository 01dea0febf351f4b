//! Hashing, Ed25519 keys and signatures, and address derivation.
use vstd::prelude::*;

use crate::BlockchainError;
use ed25519_dalek::{Signer, Verifier};
use sha2::Digest;

verus! {

/// An account identifier: the SHA-256 digest of a verifying key.
pub type Address = [u8; 32];

/// A 32-byte SHA-256 digest.
pub type Hash = [u8; 32];

/// The SHA-256 digest of a byte string.
pub uninterp spec fn sha256(data: Seq<u8>) -> Seq<u8>;

/// The Ed25519 verifying key (compressed, 32 bytes) that belongs to a secret key.
pub uninterp spec fn public_key_of(secret: Seq<u8>) -> Seq<u8>;

/// Whether 32 bytes decompress to an Ed25519 verifying key.
pub uninterp spec fn key_decodes(public_key: Seq<u8>) -> bool;

/// The deterministic Ed25519 signature of a message under a secret key.
pub uninterp spec fn signature_of(secret: Seq<u8>, message: Seq<u8>) -> Seq<u8>;

/// Whether a signature is accepted for a message under a verifying key.
pub uninterp spec fn signature_accepts(public_key: Seq<u8>, message: Seq<u8>, signature: Seq<u8>) -> bool;

/// An Ed25519 key pair, held as its secret and verifying key bytes.
pub struct Keypair {
    pub signing_key: [u8; 32],
    pub verifying_key: [u8; 32],
}

impl Keypair {
    pub open spec fn wf(&self) -> bool {
        self.verifying_key@ == public_key_of(self.signing_key@)
    }
}

/// Relies on sha2::Sha256: the digest of the bytes.
#[verifier::external_body]
fn sha256_digest(data: &[u8]) -> (r: [u8; 32])
    ensures
        r@ == sha256(data@),
{
    sha2::Sha256::digest(data).into()
}

/// Relies on ed25519_dalek::SigningKey::generate over rand's OsRng: a fresh key pair
/// whose verifying key is the one of its secret key, and which decodes.
#[verifier::external_body]
fn fresh_keypair() -> (r: Keypair)
    ensures
        r.verifying_key@ == public_key_of(r.signing_key@),
        key_decodes(r.verifying_key@),
{
    let key = ed25519_dalek::SigningKey::generate(&mut rand::rngs::OsRng);
    Keypair { signing_key: key.to_bytes(), verifying_key: key.verifying_key().to_bytes() }
}

/// Relies on ed25519_dalek::SigningKey::verifying_key: the verifying key of a secret
/// key, which always decodes.
#[verifier::external_body]
fn verifying_key_of(secret: &[u8; 32]) -> (r: [u8; 32])
    ensures
        r@ == public_key_of(secret@),
        key_decodes(r@),
{
    ed25519_dalek::SigningKey::from_bytes(secret).verifying_key().to_bytes()
}

/// Relies on ed25519_dalek's Signer::sign: the deterministic signature, which the
/// verifying key of the same secret accepts.
#[verifier::external_body]
fn ed25519_sign(secret: &[u8; 32], message: &[u8]) -> (r: [u8; 64])
    ensures
        r@ == signature_of(secret@, message@),
        signature_accepts(public_key_of(secret@), message@, r@),
{
    ed25519_dalek::SigningKey::from_bytes(secret).sign(message).to_bytes()
}

/// Relies on ed25519_dalek::VerifyingKey::from_bytes: whether the bytes decode.
#[verifier::external_body]
fn ed25519_key_decodes(public_key: &[u8; 32]) -> (r: bool)
    ensures
        r == key_decodes(public_key@),
{
    ed25519_dalek::VerifyingKey::from_bytes(public_key).is_ok()
}

/// Relies on ed25519_dalek's Verifier::verify: whether the key decodes and accepts
/// the signature over the message.
#[verifier::external_body]
fn ed25519_verify(public_key: &[u8; 32], message: &[u8], signature: &[u8; 64]) -> (r: bool)
    ensures
        r == (key_decodes(public_key@) && signature_accepts(public_key@, message@, signature@)),
{
    match ed25519_dalek::VerifyingKey::from_bytes(public_key) {
        Ok(key) => key.verify(message, &ed25519_dalek::Signature::from_bytes(signature)).is_ok(),
        Err(_) => false,
    }
}

/// Creates a key pair from the operating system's random source.
pub fn generate_keypair() -> (r: Keypair)
    ensures
        r.wf(),
        key_decodes(r.verifying_key@),
{
    fresh_keypair()
}

/// SHA-256 of the bytes.
pub fn hash(data: &[u8]) -> (r: Hash)
    ensures
        r@ == sha256(data@),
{
    sha256_digest(data)
}

/// The verifying key that belongs to a secret key.
pub fn derive_public_key(secret: &[u8; 32]) -> (r: [u8; 32])
    ensures
        r@ == public_key_of(secret@),
        key_decodes(r@),
{
    verifying_key_of(secret)
}

/// Signs a message with the key pair's secret key.
pub fn sign(keypair: &Keypair, message: &[u8]) -> (r: [u8; 64])
    ensures
        r@ == signature_of(keypair.signing_key@, message@),
        signature_accepts(public_key_of(keypair.signing_key@), message@, r@),
{
    ed25519_sign(&keypair.signing_key, message)
}

/// Checks a signature over a message.
pub fn verify(public_key: &[u8; 32], message: &[u8], signature: &[u8; 64]) -> (r: Result<(), BlockchainError>)
    ensures
        r == if key_decodes(public_key@) && signature_accepts(public_key@, message@, signature@) {
            Ok::<(), BlockchainError>(())
        } else {
            Err(BlockchainError::InvalidSignature)
        },
{
    if ed25519_verify(public_key, message, signature) {
        Ok(())
    } else {
        Err(BlockchainError::InvalidSignature)
    }
}

/// Whether a verifying key decodes.
pub fn public_key_decodes(public_key: &[u8; 32]) -> (r: bool)
    ensures
        r == key_decodes(public_key@),
{
    ed25519_key_decodes(public_key)
}

/// The address of a verifying key: the SHA-256 of its bytes.
pub fn public_key_to_address(public_key: &[u8; 32]) -> (r: Address)
    ensures
        r@ == sha256(public_key@),
{
    hash(public_key.as_slice())
}

/// Byte-wise equality of two 32-byte values.
pub fn bytes32_eq(a: &[u8; 32], b: &[u8; 32]) -> (r: bool)
    ensures
        r == (a@ == b@),
{
    let mut i: usize = 0;
    while i < 32
        invariant
            i <= 32,
            a@.len() == 32,
            b@.len() == 32,
            forall|j: int| 0 <= j < i ==> a@[j] == b@[j],
        decreases 32 - i,
    {
        if a[i] != b[i] {
            return false;
        }
        i = i + 1;
    }
    assert(a@ =~= b@);
    true
}

} // verus!
