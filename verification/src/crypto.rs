//! SHA-256, ChaCha20-Poly1305 and Ed25519 as this library uses them.
//!
//! The primitives themselves come from `sha2`, `chacha20poly1305` and
//! `ed25519-dalek`; the items marked `external_body` below are the only
//! places that call them, and their contracts are what the rest of the
//! library relies on.
use chacha20poly1305::aead::{Aead, KeyInit, Payload};
use chacha20poly1305::{ChaCha20Poly1305, Key};
use ed25519_dalek::{Signer, Verifier};
use sha2::{Digest, Sha256};
use vstd::prelude::*;

use crate::error::MoqSecureError;
use crate::nonce::{derive_nonce12, spec_nonce12};

verus! {

/// Length of the Poly1305 authentication tag.
pub const AEAD_TAG_LEN: usize = 16;

/// ChaCha20-Poly1305 refuses a message of this many bytes or more
/// (64-byte blocks, 32-bit block counter).
pub const AEAD_MAX_MESSAGE_LEN: u64 = 274877906880;

/// SHA-256 of `data` (as computed by the `sha2` crate).
pub uninterp spec fn spec_sha256(data: Seq<u8>) -> Seq<u8>;

/// ChaCha20-Poly1305 encryption output `ciphertext || tag` for the given
/// key, nonce, associated data and message (as computed by the
/// `chacha20poly1305` crate).
pub uninterp spec fn spec_chacha20poly1305_seal(
    key: Seq<u8>,
    nonce: Seq<u8>,
    aad: Seq<u8>,
    msg: Seq<u8>,
) -> Seq<u8>;

/// ChaCha20-Poly1305 decryption of `sealed = ciphertext || tag`: the
/// message, or `None` when authentication fails.
pub uninterp spec fn spec_chacha20poly1305_open(
    key: Seq<u8>,
    nonce: Seq<u8>,
    aad: Seq<u8>,
    sealed: Seq<u8>,
) -> Option<Seq<u8>>;

/// The 32-byte Ed25519 public key belonging to a 32-byte secret seed.
pub uninterp spec fn spec_ed25519_public_key(seed: Seq<u8>) -> Seq<u8>;

/// The 64-byte Ed25519 signature of `msg` under the secret seed `seed`.
pub uninterp spec fn spec_ed25519_sign(seed: Seq<u8>, msg: Seq<u8>) -> Seq<u8>;

/// Whether `sig` is a valid Ed25519 signature of `msg` under the public
/// key bytes `public` (`false` when `public` is not a curve point).
pub uninterp spec fn spec_ed25519_verify(public: Seq<u8>, msg: Seq<u8>, sig: Seq<u8>) -> bool;

/// Whether 32 bytes decompress to an Ed25519 public key.
pub uninterp spec fn spec_ed25519_key_valid(public: Seq<u8>) -> bool;

/// Calls `Sha256::digest` of the `sha2` crate. Claims: the result is the
/// function `spec_sha256` of the input bytes.
#[verifier::external_body]
pub fn sha256_digest(data: &[u8]) -> (r: [u8; 32])
    ensures
        r@ == spec_sha256(data@),
{
    Sha256::digest(data).into()
}

/// Calls `ChaCha20Poly1305::encrypt` (the `Aead` trait of the `aead` crate,
/// as implemented by `chacha20poly1305`). Claims: the result is
/// `ciphertext || tag`, a function of key, nonce, associated data and
/// message; it is 16 bytes longer than the message; and decrypting it with
/// the same key, nonce and associated data gives the message back. The
/// crate refuses messages of `AEAD_MAX_MESSAGE_LEN` bytes or more, which
/// `requires` leaves out.
#[verifier::external_body]
fn chacha20poly1305_seal(key: &[u8; 32], nonce: &[u8; 12], aad: &[u8], msg: &[u8]) -> (r: Vec<u8>)
    requires
        msg@.len() < AEAD_MAX_MESSAGE_LEN,
    ensures
        r@ == spec_chacha20poly1305_seal(key@, nonce@, aad@, msg@),
        r@.len() == msg@.len() + AEAD_TAG_LEN,
        spec_chacha20poly1305_open(key@, nonce@, aad@, r@) == Some(msg@),
{
    let cipher = ChaCha20Poly1305::new(Key::from_slice(key));
    cipher.encrypt(chacha20poly1305::Nonce::from_slice(nonce), Payload { msg, aad }).expect(
        "message below the ChaCha20-Poly1305 limit",
    )
}

/// Calls `ChaCha20Poly1305::decrypt`. Claims: the result is the function
/// `spec_chacha20poly1305_open` of key, nonce, associated data and the
/// sealed bytes (`None` for an authentication failure).
#[verifier::external_body]
fn chacha20poly1305_open(key: &[u8; 32], nonce: &[u8; 12], aad: &[u8], sealed: &[u8]) -> (r:
    Option<Vec<u8>>)
    ensures
        match r {
            Some(p) => spec_chacha20poly1305_open(key@, nonce@, aad@, sealed@) == Some(p@),
            None => spec_chacha20poly1305_open(key@, nonce@, aad@, sealed@) is None,
        },
{
    let cipher = ChaCha20Poly1305::new(Key::from_slice(key));
    cipher.decrypt(chacha20poly1305::Nonce::from_slice(nonce), Payload { msg: sealed, aad }).ok()
}

/// Calls `SigningKey::from_bytes(seed).verifying_key().to_bytes()` of
/// `ed25519-dalek`. Claims: the result is the function
/// `spec_ed25519_public_key` of the seed, and it is a valid public key.
#[verifier::external_body]
pub(crate) fn ed25519_public_key(seed: &[u8; 32]) -> (r: [u8; 32])
    ensures
        r@ == spec_ed25519_public_key(seed@),
        spec_ed25519_key_valid(r@),
{
    ed25519_dalek::SigningKey::from_bytes(seed).verifying_key().to_bytes()
}

/// Calls `Signer::sign` on `SigningKey::from_bytes(seed)` of
/// `ed25519-dalek`. Claims: the result is the function `spec_ed25519_sign`
/// of seed and message, and verifying it against the seed's public key
/// succeeds (Ed25519 correctness).
#[verifier::external_body]
pub(crate) fn ed25519_sign(seed: &[u8; 32], msg: &[u8]) -> (r: [u8; 64])
    ensures
        r@ == spec_ed25519_sign(seed@, msg@),
        spec_ed25519_verify(spec_ed25519_public_key(seed@), msg@, r@),
{
    ed25519_dalek::SigningKey::from_bytes(seed).sign(msg).to_bytes()
}

/// Calls `VerifyingKey::from_bytes` and then `Verifier::verify` of
/// `ed25519-dalek`. Claims: the result is the function
/// `spec_ed25519_verify` of key bytes, message and signature, and it is
/// `false` when the key bytes are not a valid public key.
#[verifier::external_body]
pub(crate) fn ed25519_verify(public: &[u8; 32], msg: &[u8], sig: &[u8; 64]) -> (r: bool)
    ensures
        r == spec_ed25519_verify(public@, msg@, sig@),
        !spec_ed25519_key_valid(public@) ==> !r,
{
    match ed25519_dalek::VerifyingKey::from_bytes(public) {
        Ok(key) => key.verify(msg, &ed25519_dalek::Signature::from_bytes(sig)).is_ok(),
        Err(_) => false,
    }
}

/// Calls `VerifyingKey::from_bytes` of `ed25519-dalek`. Claims: it
/// succeeds exactly when `spec_ed25519_key_valid` holds of the bytes; the
/// error is handed back as its display text, of which nothing is claimed.
#[verifier::external_body]
pub(crate) fn ed25519_key_check(public: &[u8; 32]) -> (r: Result<(), String>)
    ensures
        r is Ok <==> spec_ed25519_key_valid(public@),
{
    ed25519_dalek::VerifyingKey::from_bytes(public).map(|_| ()).map_err(|e| e.to_string())
}

/// `ciphertext || tag` for `plaintext` under `key`, with the nonce derived
/// from `(key_id, ctr)`.
pub open spec fn spec_aead_seal(key: Seq<u8>, key_id: u8, ctr: u64, aad: Seq<u8>, plaintext: Seq<
    u8,
>) -> Seq<u8> {
    spec_chacha20poly1305_seal(key, spec_nonce12(key_id, ctr), aad, plaintext)
}

/// Decryption of `ciphertext || tag` under `key`, with the nonce derived
/// from `(key_id, ctr)`.
pub open spec fn spec_aead_open(
    key: Seq<u8>,
    key_id: u8,
    ctr: u64,
    aad: Seq<u8>,
    ciphertext: Seq<u8>,
    tag: Seq<u8>,
) -> Option<Seq<u8>> {
    spec_chacha20poly1305_open(key, spec_nonce12(key_id, ctr), aad, ciphertext + tag)
}

/// Splits `ciphertext || tag` into its two parts.
pub fn split_ciphertext_and_tag(combined: &[u8]) -> (r: (Vec<u8>, [u8; 16]))
    requires
        combined@.len() >= AEAD_TAG_LEN,
    ensures
        r.0@ + r.1@ == combined@,
        r.0@.len() + AEAD_TAG_LEN == combined@.len(),
{
    let ct_len = combined.len() - AEAD_TAG_LEN;
    let ciphertext = vstd::slice::slice_to_vec(vstd::slice::slice_subrange(combined, 0, ct_len));
    let tag = crate::codec::read_array16(combined, ct_len);
    assert(ciphertext@ + tag@ =~= combined@);
    (ciphertext, tag)
}

/// Joins a ciphertext and its tag into `ciphertext || tag`.
pub fn combine_ciphertext_and_tag(ciphertext: &[u8], tag: &[u8; 16]) -> (r: Vec<u8>)
    ensures
        r@ == ciphertext@ + tag@,
{
    let mut combined = Vec::new();
    crate::codec::extend_bytes(&mut combined, ciphertext);
    crate::codec::extend_bytes(&mut combined, tag);
    combined
}

/// Encrypts `plaintext` with ChaCha20-Poly1305 under `key`, the nonce
/// derived from `(key_id, ctr)` and the associated data `aad`; returns the
/// ciphertext (as long as the plaintext) and the 16-byte tag.
pub fn aead_encrypt(key: &[u8; 32], key_id: u8, ctr: u64, aad: &[u8], plaintext: &[u8]) -> (r: (
    Vec<u8>,
    [u8; 16],
))
    requires
        plaintext@.len() < AEAD_MAX_MESSAGE_LEN,
    ensures
        r.0@ + r.1@ == spec_aead_seal(key@, key_id, ctr, aad@, plaintext@),
        r.0@.len() == plaintext@.len(),
        spec_aead_open(key@, key_id, ctr, aad@, r.0@, r.1@) == Some(plaintext@),
{
    let nonce = derive_nonce12(key_id, ctr);
    let out = chacha20poly1305_seal(key, &nonce, aad, plaintext);
    split_ciphertext_and_tag(out.as_slice())
}

/// Decrypts `ciphertext` with its separate 16-byte `tag`; fails with
/// `AeadAuthFailed` exactly when authentication fails.
pub fn aead_decrypt(
    key: &[u8; 32],
    key_id: u8,
    ctr: u64,
    aad: &[u8],
    ciphertext: &[u8],
    tag: &[u8; 16],
) -> (r: Result<Vec<u8>, MoqSecureError>)
    ensures
        match r {
            Ok(p) => spec_aead_open(key@, key_id, ctr, aad@, ciphertext@, tag@) == Some(p@),
            Err(e) => e == MoqSecureError::AeadAuthFailed && spec_aead_open(
                key@,
                key_id,
                ctr,
                aad@,
                ciphertext@,
                tag@,
            ) is None,
        },
{
    let nonce = derive_nonce12(key_id, ctr);
    let combined = combine_ciphertext_and_tag(ciphertext, tag);
    match chacha20poly1305_open(key, &nonce, aad, combined.as_slice()) {
        Some(p) => Ok(p),
        None => Err(MoqSecureError::AeadAuthFailed),
    }
}

} // verus!
