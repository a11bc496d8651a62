//! The cryptographic primitives that the enclave relies on: SHA-256, ECIES over
//! secp256k1 and the curve's key encoding. Their implementations are not part of
//! what is proved here; each function below says what is taken on trust.

use sha2::Digest;
use vstd::prelude::*;

verus! {

/// The SHA-256 digest of a byte string.
pub uninterp spec fn sha256_spec(data: Seq<u8>) -> Seq<u8>;

/// The SEC1 compressed public key of a secp256k1 secret scalar, or `None` where the
/// bytes are no valid scalar.
pub uninterp spec fn public_key_spec(secret: Seq<u8>) -> Option<Seq<u8>>;

/// Whether a byte string is the SEC1 encoding of a point on secp256k1.
pub uninterp spec fn is_sec1_point(bytes: Seq<u8>) -> bool;

/// Whether a ciphertext of `sealed` bytes can hold a plaintext of `plain` bytes:
/// it is longer by an ephemeral public key, compressed or not, a nonce of 16
/// bytes and a tag of 16 bytes.
pub open spec fn is_sealed_length(sealed: nat, plain: nat) -> bool {
    sealed == plain + 65 || sealed == plain + 97
}

/// Calls `sha2::Sha256::digest`. Trusted: the result is the SHA-256 digest of
/// `data`, a function of `data` alone.
#[verifier::external_body]
pub(crate) fn sha256(data: &[u8]) -> (r: [u8; 32])
    ensures
        r@ == sha256_spec(data@),
{
    sha2::Sha256::digest(data).into()
}

/// Calls `k256::ecdsa::SigningKey::from_slice` and encodes the key's verifying key
/// with `to_sec1_bytes`. Trusted: the result depends on `secret` alone; it is
/// `None` exactly where `from_slice` refuses the scalar.
#[verifier::external_body]
pub(crate) fn sec1_public_key(secret: &[u8]) -> (r: Option<Vec<u8>>)
    ensures
        r.is_some() == public_key_spec(secret@).is_some(),
        r matches Some(pk) ==> pk@ == public_key_spec(secret@).unwrap(),
{
    let key = k256::ecdsa::SigningKey::from_slice(secret).ok()?;
    Some(key.verifying_key().to_sec1_bytes().into_vec())
}

/// Calls `k256::ecdsa::VerifyingKey::from_sec1_bytes`. Trusted: whether the call
/// accepts `bytes` depends on `bytes` alone.
#[verifier::external_body]
pub(crate) fn check_sec1_point(bytes: &[u8]) -> (r: bool)
    ensures
        r == is_sec1_point(bytes@),
{
    k256::ecdsa::VerifyingKey::from_sec1_bytes(bytes).is_ok()
}

/// Calls `k256::ecdsa::SigningKey::random` with the thread's generator and returns
/// the scalar's bytes. Trusted: the scalar is not zero and below the curve's
/// order, so it has a public key. Which scalar it is, chance decides.
#[verifier::external_body]
pub(crate) fn random_secret() -> (r: [u8; 32])
    ensures
        public_key_spec(r@) is Some,
{
    k256::ecdsa::SigningKey::random(&mut rand::thread_rng()).to_bytes().into()
}

/// Calls `ecies::encrypt`. Trusted: a ciphertext is an ephemeral public key of 33
/// or 65 bytes, a nonce of 16 bytes, a tag of 16 bytes and as many bytes as the
/// plaintext has. Which bytes they are depends on a fresh ephemeral key and
/// nonce. `None` stands for the crate's error.
#[verifier::external_body]
pub(crate) fn ecies_encrypt(public_key: &[u8], plaintext: &[u8]) -> (r: Option<Vec<u8>>)
    ensures
        r matches Some(c) ==> is_sealed_length(c@.len(), plaintext@.len()),
{
    ecies::encrypt(public_key, plaintext).ok()
}

/// Calls `ecies::decrypt`. Trusted: a plaintext has as many bytes as the
/// ciphertext has after its ephemeral public key of 33 or 65 bytes, its nonce
/// and its tag. Which bytes they are is not claimed: the crate reads a
/// process-wide configuration besides its arguments. `None` stands for the
/// crate's error.
#[verifier::external_body]
pub(crate) fn ecies_decrypt(secret: &[u8], ciphertext: &[u8]) -> (r: Option<Vec<u8>>)
    ensures
        r matches Some(p) ==> is_sealed_length(ciphertext@.len(), p@.len()),
{
    ecies::decrypt(secret, ciphertext).ok()
}

} // verus!
