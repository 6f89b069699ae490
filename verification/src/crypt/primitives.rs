//! The cryptographic operations of the outside crates that the library calls,
//! each behind a trusted wrapper whose contract says what the crate's source and
//! documentation show.

use aes_gcm::aead::{Aead, AeadCore, KeyInit, OsRng};
use aes_gcm::{Aes256Gcm, Key, Nonce};
use chacha20poly1305::{XChaCha20Poly1305, XNonce};
use hkdf::Hkdf;
use rand::RngCore;
use sha2::Sha256;
use vstd::prelude::*;
use x25519_dalek::{PublicKey, StaticSecret};

verus! {

/// The error of the `aead` crate, which both AEAD crates report.
#[verifier::external_type_specification]
#[verifier::external_body]
pub struct ExAeadError(aes_gcm::Error);

/// The longest plaintext that AES-256-GCM accepts, in bytes (`aes_gcm::P_MAX`).
pub open spec fn aes_gcm_max_plaintext() -> int {
    0x10_0000_0000
}

/// The length of an AES-256-GCM and of an XChaCha20-Poly1305 authentication tag.
pub open spec fn aead_tag_len() -> int {
    16
}

/// The ciphertext and tag that `Aes256Gcm::encrypt` gives for a key, a nonce and a plaintext.
pub uninterp spec fn aes256gcm_seal(key: Seq<u8>, nonce: Seq<u8>, plaintext: Seq<u8>) -> Seq<u8>;

/// What `Aes256Gcm::decrypt` gives for a key, a nonce and a ciphertext with its tag:
/// the plaintext when the tag authenticates the ciphertext, `None` otherwise.
pub uninterp spec fn aes256gcm_open(key: Seq<u8>, nonce: Seq<u8>, ciphertext: Seq<u8>) -> Option<
    Seq<u8>,
>;

/// A fresh random AES-256 key (`Aes256Gcm::generate_key` with the system's generator).
/// Nothing is stated of the bytes: they come from the operating system.
#[verifier::external_body]
pub(crate) fn aes_random_key() -> (key: [u8; 32]) {
    Aes256Gcm::generate_key(&mut OsRng).into()
}

/// A fresh random 96-bit nonce (`Aes256Gcm::generate_nonce` with the system's generator).
/// Nothing is stated of the bytes: they come from the operating system.
#[verifier::external_body]
pub(crate) fn aes_random_nonce() -> (nonce: [u8; 12]) {
    Aes256Gcm::generate_nonce(&mut OsRng).into()
}

/// `Aes256Gcm::encrypt`: fails exactly when the plaintext is longer than `P_MAX`;
/// otherwise gives the ciphertext followed by its 16-byte tag, which decrypts under
/// the same key and nonce to the plaintext (AEAD correctness).
#[verifier::external_body]
pub(crate) fn aes256gcm_encrypt(key: &[u8; 32], nonce: &[u8; 12], plaintext: &[u8]) -> (r: Result<
    Vec<u8>,
    aes_gcm::Error,
>)
    ensures
        r is Ok <==> plaintext@.len() <= aes_gcm_max_plaintext(),
        r matches Ok(c) ==> c@ == aes256gcm_seal(key@, nonce@, plaintext@) && c@.len()
            == plaintext@.len() + aead_tag_len() && aes256gcm_open(key@, nonce@, c@) == Some(
            plaintext@,
        ),
{
    Aes256Gcm::new(Key::<Aes256Gcm>::from_slice(key)).encrypt(Nonce::from_slice(nonce), plaintext)
}

/// `Aes256Gcm::decrypt`: gives the plaintext when the tag authenticates the
/// ciphertext under the key and nonce.
#[verifier::external_body]
pub(crate) fn aes256gcm_decrypt(key: &[u8; 32], nonce: &[u8; 12], ciphertext: &[u8]) -> (r: Result<
    Vec<u8>,
    aes_gcm::Error,
>)
    ensures
        r is Ok <==> aes256gcm_open(key@, nonce@, ciphertext@) is Some,
        r matches Ok(p) ==> aes256gcm_open(key@, nonce@, ciphertext@) == Some(p@),
{
    Aes256Gcm::new(Key::<Aes256Gcm>::from_slice(key)).decrypt(Nonce::from_slice(nonce), ciphertext)
}

/// Whether XChaCha20-Poly1305 accepts a plaintext of `len` bytes: fewer than
/// `u32::MAX` blocks of 64 bytes.
pub open spec fn xchacha_accepts(len: int) -> bool {
    len / 64 < 0xffff_ffff
}

/// Whether XChaCha20-Poly1305 passes its length check on `len` bytes but its
/// keystream, which starts at block 1 of a 32-bit counter and so leaves 2^32 - 2
/// blocks of 64 bytes, runs out before the end: the crate then panics.
pub open spec fn xchacha_keystream_stops(len: int) -> bool {
    0xffff_fffe * 64 < len && xchacha_accepts(len)
}

/// Whether `XChaCha20Poly1305::decrypt` panics on `ciphertext`: its tag
/// authenticates, and the text before the tag is too long for the keystream.
pub open spec fn xchacha_decrypt_stops(key: Seq<u8>, nonce: Seq<u8>, ciphertext: Seq<u8>) -> bool {
    &&& ciphertext.len() >= aead_tag_len()
    &&& xchacha_keystream_stops(ciphertext.len() - aead_tag_len())
    &&& xchacha20poly1305_open(key, nonce, ciphertext) is Some
}

/// The ciphertext and tag that `XChaCha20Poly1305::encrypt` gives.
pub uninterp spec fn xchacha20poly1305_seal(key: Seq<u8>, nonce: Seq<u8>, plaintext: Seq<u8>) -> Seq<
    u8,
>;

/// What `XChaCha20Poly1305::decrypt` gives for a ciphertext with its tag: the
/// plaintext when the tag authenticates it, `None` otherwise.
pub uninterp spec fn xchacha20poly1305_open(key: Seq<u8>, nonce: Seq<u8>, ciphertext: Seq<u8>) -> Option<
    Seq<u8>,
>;

/// `XChaCha20Poly1305::encrypt`: fails exactly when the plaintext has `u32::MAX`
/// blocks of 64 bytes or more; otherwise gives the ciphertext and its 16-byte tag,
/// which decrypts under the same key and nonce to the plaintext (AEAD correctness).
/// The lengths on which the crate panics are outside the inputs.
#[verifier::external_body]
pub(crate) fn xchacha_encrypt(key: &[u8; 32], nonce: &[u8; 24], plaintext: &[u8]) -> (r: Result<
    Vec<u8>,
    aes_gcm::Error,
>)
    requires
        !xchacha_keystream_stops(plaintext@.len() as int),
    ensures
        r is Ok <==> xchacha_accepts(plaintext@.len() as int),
        r matches Ok(c) ==> c@ == xchacha20poly1305_seal(key@, nonce@, plaintext@) && c@.len()
            == plaintext@.len() + aead_tag_len() && xchacha20poly1305_open(key@, nonce@, c@)
            == Some(plaintext@),
{
    XChaCha20Poly1305::new(chacha20poly1305::Key::from_slice(key)).encrypt(
        XNonce::from_slice(nonce),
        plaintext,
    )
}

/// `XChaCha20Poly1305::decrypt`: gives the plaintext when the tag authenticates
/// the ciphertext. The inputs on which the crate panics are outside the inputs.
#[verifier::external_body]
pub(crate) fn xchacha_decrypt(key: &[u8; 32], nonce: &[u8; 24], ciphertext: &[u8]) -> (r: Result<
    Vec<u8>,
    aes_gcm::Error,
>)
    requires
        !xchacha_decrypt_stops(key@, nonce@, ciphertext@),
    ensures
        r is Ok <==> xchacha20poly1305_open(key@, nonce@, ciphertext@) is Some,
        r matches Ok(p) ==> xchacha20poly1305_open(key@, nonce@, ciphertext@) == Some(p@),
{
    XChaCha20Poly1305::new(chacha20poly1305::Key::from_slice(key)).decrypt(
        XNonce::from_slice(nonce),
        ciphertext,
    )
}

/// 24 random bytes from the system's generator (`RngCore::fill_bytes` on `OsRng`).
/// Nothing is stated of the bytes.
#[verifier::external_body]
pub(crate) fn random_nonce_24() -> (nonce: [u8; 24]) {
    let mut nonce = [0u8; 24];
    OsRng.fill_bytes(&mut nonce);
    nonce
}

/// The X25519 public key of a secret key, as `PublicKey::from(&StaticSecret)` computes it.
pub uninterp spec fn x25519_base(secret: Seq<u8>) -> Seq<u8>;

/// The X25519 function `x25519_dalek::x25519(k, u)`.
pub uninterp spec fn x25519_dh(k: Seq<u8>, u: Seq<u8>) -> Seq<u8>;

/// Whether the key pair `secret`, `public` agrees with every other secret: the X25519
/// function of another secret and `public` equals that of `secret` and the other's
/// public key.
pub open spec fn agrees_with_all(secret: Seq<u8>, public: Seq<u8>) -> bool {
    forall|b: Seq<u8>| b.len() == 32 ==> #[trigger] x25519_dh(b, public) == x25519_dh(secret, x25519_base(b))
}

/// A fresh random X25519 secret (`StaticSecret::random_from_rng(OsRng)`, as bytes).
/// Nothing is stated of the bytes.
#[verifier::external_body]
pub(crate) fn x25519_random_secret() -> (secret: [u8; 32]) {
    StaticSecret::random_from_rng(OsRng).to_bytes()
}

/// `PublicKey::from(&StaticSecret::from(secret))`, as bytes. As the crate's
/// documentation of `x25519` shows, two parties reach the same shared secret: the
/// function of any other secret and this public key equals that of this secret and
/// the other's public key.
#[verifier::external_body]
pub(crate) fn x25519_public_key(secret: &[u8; 32]) -> (public: [u8; 32])
    ensures
        public@ == x25519_base(secret@),
        agrees_with_all(secret@, public@),
{
    PublicKey::from(&StaticSecret::from(*secret)).to_bytes()
}

/// `x25519_dalek::x25519(k, u)`.
#[verifier::external_body]
pub(crate) fn x25519(k: [u8; 32], u: [u8; 32]) -> (shared: [u8; 32])
    ensures
        shared@ == x25519_dh(k@, u@),
{
    x25519_dalek::x25519(k, u)
}

/// The 32 bytes that HKDF-SHA256 without salt expands from `ikm` with `info`.
pub uninterp spec fn hkdf_sha256_unsalted(ikm: Seq<u8>, info: Seq<u8>) -> Seq<u8>;

/// `Hkdf::<Sha256>::new(None, ikm)` then `expand(info)` into 32 bytes; the expansion
/// cannot fail, 32 being below 255 times the hash length.
#[verifier::external_body]
pub(crate) fn hkdf_sha256_32(ikm: &[u8], info: &[u8]) -> (okm: [u8; 32])
    ensures
        okm@ == hkdf_sha256_unsalted(ikm@, info@),
{
    let mut okm = [0u8; 32];
    Hkdf::<Sha256>::new(None, ikm).expand(info, &mut okm).unwrap();
    okm
}

} // verus!
