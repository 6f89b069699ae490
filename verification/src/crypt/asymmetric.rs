//! Public-key encryption to an X25519 key: an ephemeral X25519 key agreement,
//! HKDF-SHA256 to derive the key, and XChaCha20-Poly1305. A message is the version
//! byte, the ephemeral public key (32 bytes), the nonce (24 bytes), then the
//! ciphertext with its tag.

use vstd::prelude::*;
use vstd::string::StringSliceAdditionalSpecFns;

use crate::crypt::primitives::{
    aead_tag_len, agrees_with_all, hkdf_sha256_32, hkdf_sha256_unsalted, random_nonce_24,
    x25519, x25519_base, x25519_dh, x25519_public_key, x25519_random_secret, xchacha20poly1305_open,
    xchacha20poly1305_seal, xchacha_accepts, xchacha_decrypt, xchacha_decrypt_stops, xchacha_encrypt,
    xchacha_keystream_stops,
};
use crate::crypt::symmetric::{bytes_result_view, string_from};
use crate::text::{chars_of, nat_digits, push_nat_digits, push_str_chars, string_of};

verus! {

/// The version byte that starts every message.
pub const VERSION: u8 = 1;

/// The HKDF `info` from which the message key is derived.
pub const KDF_INFO: &'static str = "chacha20poly1305 key";

/// A fresh X25519 key pair: a random secret, and its public key.
pub fn generate_keypair() -> (r: ([u8; 32], [u8; 32]))
    ensures
        r.1@ == x25519_base(r.0@),
        agrees_with_all(r.0@, r.1@),
{
    let secret = x25519_random_secret();
    let public = x25519_public_key(&secret);
    (secret, public)
}

/// The message key derived from a shared secret: HKDF-SHA256 without salt, with
/// the bytes of `KDF_INFO` as info, 32 bytes long.
pub open spec fn message_key(shared: Seq<u8>) -> Seq<u8> {
    hkdf_sha256_unsalted(shared, KDF_INFO.spec_bytes())
}

/// The message key derived from `shared_secret` (see `message_key`).
pub fn derive_key(shared_secret: &[u8]) -> (key: [u8; 32])
    ensures
        key@ == message_key(shared_secret@),
{
    hkdf_sha256_32(shared_secret, KDF_INFO.as_bytes())
}

/// A message: the version byte, the ephemeral public key, the nonce, the ciphertext.
pub open spec fn envelope(ephemeral_public: Seq<u8>, nonce: Seq<u8>, ciphertext: Seq<u8>) -> Seq<u8> {
    seq![VERSION] + ephemeral_public + nonce + ciphertext
}

/// The message that encrypting `plaintext` to `recipient` gives with the ephemeral
/// secret `ephemeral` and the nonce `nonce`.
pub open spec fn sealed_envelope(
    recipient: Seq<u8>,
    plaintext: Seq<u8>,
    ephemeral: Seq<u8>,
    nonce: Seq<u8>,
) -> Seq<u8> {
    envelope(
        x25519_base(ephemeral),
        nonce,
        xchacha20poly1305_seal(message_key(x25519_dh(ephemeral, recipient)), nonce, plaintext),
    )
}

/// Whether XChaCha20-Poly1305 sealed `plaintext` under `key` and `nonce` into a
/// ciphertext 16 bytes longer that opens under the same key and nonce to `plaintext`.
pub open spec fn xchacha_sealed(key: Seq<u8>, nonce: Seq<u8>, plaintext: Seq<u8>) -> bool {
    &&& xchacha20poly1305_seal(key, nonce, plaintext).len() == plaintext.len() + aead_tag_len()
    &&& xchacha20poly1305_open(key, nonce, xchacha20poly1305_seal(key, nonce, plaintext)) == Some(
        plaintext,
    )
}

/// Whether `message` is `plaintext` encrypted to `recipient` with some ephemeral
/// secret and nonce.
pub open spec fn is_asymmetric_encryption(message: Seq<u8>, recipient: Seq<u8>, plaintext: Seq<u8>) -> bool {
    exists|e: Seq<u8>, n: Seq<u8>|
        e.len() == 32 && n.len() == 24 && x25519_base(e).len() == 32 && agrees_with_all(e, x25519_base(e)) && xchacha_sealed(
            message_key(x25519_dh(e, recipient)),
            n,
            plaintext,
        ) && message == #[trigger] sealed_envelope(recipient, plaintext, e, n)
}

/// What `decrypt` gives for `message` under the secret key `secret`: the plaintext,
/// or the text of the error.
pub open spec fn decrypt_result(secret: Seq<u8>, message: Seq<u8>) -> Result<Seq<u8>, Seq<char>> {
    if message.len() < 58 {
        Err("Message too short"@)
    } else if message[0] != VERSION {
        Err("Unsupported version: "@ + nat_digits(message[0] as nat))
    } else {
        let key = message_key(x25519_dh(secret, message.subrange(1, 33)));
        match xchacha20poly1305_open(key, message.subrange(33, 57), message.skip(57)) {
            Some(p) => Ok(p),
            None => Err("Decrypt error: Error"@),
        }
    }
}

/// Whether decrypting `message` with `secret` stops the program: a well-formed
/// message whose ciphertext authenticates but is too long for XChaCha20's counter.
pub open spec fn decrypt_stops(secret: Seq<u8>, message: Seq<u8>) -> bool {
    &&& message.len() >= 58
    &&& message[0] == VERSION
    &&& xchacha_decrypt_stops(
        message_key(x25519_dh(secret, message.subrange(1, 33))),
        message.subrange(33, 57),
        message.skip(57),
    )
}

/// Whether `message` is long enough that its ciphertext, if it authenticated, would
/// run XChaCha20's counter out (see `xchacha_keystream_stops`).
pub open spec fn message_too_long(message: Seq<u8>) -> bool {
    message.len() >= 57 + aead_tag_len() && xchacha_keystream_stops(message.len() - 57 - aead_tag_len())
}

/// Whether `message` is too long for decryption (see `message_too_long`).
pub fn is_message_too_long(message: &[u8]) -> (b: bool)
    ensures
        b == message_too_long(message@),
{
    let n = message.len() as u64;
    n >= 73 && 0xffff_fffeu64 * 64 < n - 73 && (n - 73) / 64 < 0xffff_ffff
}

/// Encrypts `plaintext` to `recipient_pub` with the given ephemeral secret and nonce.
/// Fails, with `Encrypt error: Error`, exactly when XChaCha20-Poly1305 refuses the
/// plaintext.
pub fn encrypt_with(
    recipient_pub: &[u8; 32],
    plaintext: &[u8],
    ephemeral: &[u8; 32],
    nonce: &[u8; 24],
) -> (r: Result<Vec<u8>, String>)
    requires
        !xchacha_keystream_stops(plaintext@.len() as int),
    ensures
        r is Ok <==> xchacha_accepts(plaintext@.len() as int),
        r matches Ok(m) ==> m@ == sealed_envelope(recipient_pub@, plaintext@, ephemeral@, nonce@)
            && x25519_base(ephemeral@).len() == 32 && agrees_with_all(ephemeral@, x25519_base(ephemeral@)) && xchacha_sealed(
            message_key(x25519_dh(ephemeral@, recipient_pub@)),
            nonce@,
            plaintext@,
        ),
        r matches Err(e) ==> e@ == "Encrypt error: Error"@,
{
    let eph_pub = x25519_public_key(ephemeral);
    let shared = x25519(*ephemeral, *recipient_pub);
    let key = derive_key(shared.as_slice());
    let ciphertext = match xchacha_encrypt(&key, nonce, plaintext) {
        Ok(c) => c,
        Err(_) => return Err(string_from("Encrypt error: Error")),
    };
    let mut msg: Vec<u8> = Vec::new();
    msg.push(VERSION);
    msg.extend_from_slice(eph_pub.as_slice());
    msg.extend_from_slice(nonce.as_slice());
    msg.extend_from_slice(ciphertext.as_slice());
    assert(msg@ =~= envelope(eph_pub@, nonce@, ciphertext@));
    Ok(msg)
}

/// Encrypts `plaintext` to `recipient_pub` with a fresh ephemeral secret and nonce
/// (see `encrypt_with`).
pub fn encrypt(recipient_pub: &[u8; 32], plaintext: &[u8]) -> (r: Result<Vec<u8>, String>)
    requires
        !xchacha_keystream_stops(plaintext@.len() as int),
    ensures
        r is Ok <==> xchacha_accepts(plaintext@.len() as int),
        r matches Ok(m) ==> is_asymmetric_encryption(m@, recipient_pub@, plaintext@),
        r matches Err(e) ==> e@ == "Encrypt error: Error"@,
{
    let ephemeral = x25519_random_secret();
    let nonce = random_nonce_24();
    let r = encrypt_with(recipient_pub, plaintext, &ephemeral, &nonce);
    proof {
        if r is Ok {
            let e = ephemeral@;
            let n = nonce@;
            assert(sealed_envelope(recipient_pub@, plaintext@, e, n) == r->Ok_0@);
        }
    }
    r
}

/// The bytes `b[lo..lo + 32]` as an array.
fn array32_at(b: &[u8], lo: usize) -> (out: [u8; 32])
    requires
        lo + 32 <= b@.len(),
    ensures
        out@ == b@.subrange(lo as int, lo + 32),
{
    let mut out = [0u8; 32];
    let mut i: usize = 0;
    while i < 32
        invariant
            i <= 32,
            lo + 32 <= b@.len(),
            b@.len() == b.len(),
            forall|k: int| 0 <= k < i ==> out@[k] == b@[lo + k],
        decreases 32 - i,
    {
        out[i] = b[lo + i];
        i = i + 1;
    }
    assert(out@ =~= b@.subrange(lo as int, lo + 32));
    out
}

/// The bytes `b[lo..lo + 24]` as an array.
fn array24_at(b: &[u8], lo: usize) -> (out: [u8; 24])
    requires
        lo + 24 <= b@.len(),
    ensures
        out@ == b@.subrange(lo as int, lo + 24),
{
    let mut out = [0u8; 24];
    let mut i: usize = 0;
    while i < 24
        invariant
            i <= 24,
            lo + 24 <= b@.len(),
            b@.len() == b.len(),
            forall|k: int| 0 <= k < i ==> out@[k] == b@[lo + k],
        decreases 24 - i,
    {
        out[i] = b[lo + i];
        i = i + 1;
    }
    assert(out@ =~= b@.subrange(lo as int, lo + 24));
    out
}

/// Decrypts `message` with the secret key: `Message too short` below 58 bytes,
/// `Unsupported version: <v>` for another version byte, `Decrypt error: Error` when
/// the tag does not check.
pub fn decrypt(recipient_secret: &[u8; 32], message: &[u8]) -> (r: Result<Vec<u8>, String>)
    requires
        !decrypt_stops(recipient_secret@, message@),
    ensures
        bytes_result_view(r) == decrypt_result(recipient_secret@, message@),
{
    if message.len() < 58 {
        return Err(string_from("Message too short"));
    }
    let version = message[0];
    if version != VERSION {
        let mut text = chars_of("Unsupported version: ");
        push_nat_digits(&mut text, version as u64);
        return Err(string_of(&text));
    }
    let eph_pub = array32_at(message, 1);
    let nonce = array24_at(message, 33);
    let ciphertext = vstd::slice::slice_subrange(message, 57, message.len());
    assert(ciphertext@ =~= message@.skip(57));
    let shared = x25519(*recipient_secret, eph_pub);
    let key = derive_key(shared.as_slice());
    match xchacha_decrypt(&key, &nonce, ciphertext) {
        Ok(p) => Ok(p),
        Err(_) => Err(string_from("Decrypt error: Error")),
    }
}

/// Decrypting, with a secret key, what encrypting to its public key made gives the
/// plaintext back, and does not stop: encryption only ever makes ciphertexts short
/// enough for the counter.
pub proof fn law_asymmetric_roundtrip(secret: Seq<u8>, message: Seq<u8>, plaintext: Seq<u8>)
    requires
        secret.len() == 32,
        is_asymmetric_encryption(message, x25519_base(secret), plaintext),
        !xchacha_keystream_stops(plaintext.len() as int),
    ensures
        decrypt_result(secret, message) == Ok::<Seq<u8>, Seq<char>>(plaintext),
        !decrypt_stops(secret, message),
        !message_too_long(message),
{
    lemma_encryption_len(message, x25519_base(secret), plaintext);
    let recipient = x25519_base(secret);
    let (e, n) = choose|e: Seq<u8>, n: Seq<u8>|
        e.len() == 32 && n.len() == 24 && x25519_base(e).len() == 32 && agrees_with_all(e, x25519_base(e)) && xchacha_sealed(
            message_key(x25519_dh(e, recipient)),
            n,
            plaintext,
        ) && message == #[trigger] sealed_envelope(recipient, plaintext, e, n);
    let key = message_key(x25519_dh(e, recipient));
    let c = xchacha20poly1305_seal(key, n, plaintext);
    assert(message.subrange(1, 33) =~= x25519_base(e));
    assert(message.subrange(33, 57) =~= n);
    assert(message.skip(57) =~= c);
    assert(x25519_dh(secret, x25519_base(e)) == x25519_dh(e, x25519_base(secret)));
}

/// An encrypted message is 73 bytes longer than its plaintext: the version, the
/// ephemeral key, the nonce and the tag.
pub proof fn lemma_encryption_len(message: Seq<u8>, recipient: Seq<u8>, plaintext: Seq<u8>)
    requires
        is_asymmetric_encryption(message, recipient, plaintext),
    ensures
        message.len() == plaintext.len() + 73,
{
    let (e, n) = choose|e: Seq<u8>, n: Seq<u8>|
        e.len() == 32 && n.len() == 24 && x25519_base(e).len() == 32 && agrees_with_all(e, x25519_base(e)) && xchacha_sealed(
            message_key(x25519_dh(e, recipient)),
            n,
            plaintext,
        ) && message == #[trigger] sealed_envelope(recipient, plaintext, e, n);
}

} // verus!
