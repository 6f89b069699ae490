//! AES-256-GCM session encryption, in the two wire forms of the protocol: a binary
//! frame (length, ciphertext, nonce) and a text form (Base64 ciphertext `::` Base64
//! nonce).

use vstd::prelude::*;
use vstd::string::StringSliceAdditionalSpecFns;
use vstd::utf8::{decode_utf8, valid_utf8};

use crate::crypt::primitives::{
    aes256gcm_decrypt, aes256gcm_encrypt, aes256gcm_open, aes256gcm_seal, aes_gcm_max_plaintext,
    aes_random_key, aes_random_nonce, aead_tag_len,
};
use crate::crypt::utils::{
    base64_decode, base64_encodable, base64_encode, base64_standard_decode,
    base64_standard_encode, is_base64_char, string_from_utf8, utf8_error_text,
};
use crate::text::{chars_of, copy_range, push_chars, push_str_chars, string_of};

verus! {

/// What a task or a client stops with when a message is too long for XChaCha20's
/// block counter (the error that the crate unwraps).
pub const KEYSTREAM_STOP: &'static str = "StreamCipherError";

/// The separator between the ciphertext and the nonce of the text form.
pub const DIVIDER: &'static str = "::";

/// A fresh random session key (`Aes256Gcm::generate_key`).
pub fn keygen() -> (key: [u8; 32]) {
    aes_random_key()
}

/// The four big-endian bytes of `x`.
pub open spec fn be32(x: nat) -> Seq<u8>
    recommends
        x < 0x1_0000_0000,
{
    seq![(x / 0x100_0000) as u8, ((x / 0x1_0000) % 256) as u8, ((x / 0x100) % 256) as u8, (x % 256) as u8]
}

/// The number that four big-endian bytes write.
pub open spec fn be32_value(b: Seq<u8>) -> nat {
    (b[0] * 0x100_0000 + b[1] * 0x1_0000 + b[2] * 0x100 + b[3]) as nat
}

/// A binary frame: the ciphertext's length modulo 2^32 in four big-endian bytes
/// (`(len as u32).to_be_bytes()`), the ciphertext, then the nonce.
pub open spec fn binary_frame(ciphertext: Seq<u8>, nonce: Seq<u8>) -> Seq<u8> {
    be32((ciphertext.len() % 0x1_0000_0000) as nat) + ciphertext + nonce
}

/// The ciphertext and nonce that a binary frame carries: `None` when the frame is
/// shorter than 16 bytes or than its stated length with header and nonce. Bytes
/// after the nonce are ignored.
pub open spec fn parse_binary_frame(data: Seq<u8>) -> Option<(Seq<u8>, Seq<u8>)> {
    if data.len() < 16 {
        None
    } else {
        let len: int = be32_value(data.take(4)) as int;
        if data.len() < 4 + len + 12 {
            None
        } else {
            Some((data.subrange(4, 4 + len), data.subrange(4 + len, 4 + len + 12)))
        }
    }
}

/// What `decrypt_binary` gives for `data` under `key`: the plaintext, or the text
/// of the error.
pub open spec fn decrypt_binary_result(data: Seq<u8>, key: Seq<u8>) -> Result<Seq<u8>, Seq<char>> {
    if data.len() < 16 {
        Err("Data too short"@)
    } else {
        match parse_binary_frame(data) {
            None => Err("Data length mismatch"@),
            Some((ciphertext, nonce)) => match aes256gcm_open(key, nonce, ciphertext) {
                Some(p) => Ok(p),
                None => Err("Decryption failed: Error"@),
            },
        }
    }
}

/// Whether AES-256-GCM, under `key` and `nonce`, sealed `data` into a ciphertext 16
/// bytes longer that opens under the same key and nonce to `data`.
pub open spec fn aes_sealed(key: Seq<u8>, nonce: Seq<u8>, data: Seq<u8>) -> bool {
    &&& aes256gcm_seal(key, nonce, data).len() == data.len() + aead_tag_len()
    &&& aes256gcm_open(key, nonce, aes256gcm_seal(key, nonce, data)) == Some(data)
}

/// Whether `frame` is a binary frame of `data` encrypted under `key` with some nonce.
pub open spec fn is_binary_encryption(frame: Seq<u8>, key: Seq<u8>, data: Seq<u8>) -> bool {
    exists|n: Seq<u8>|
        n.len() == 12 && aes_sealed(key, n, data) && frame == #[trigger] binary_frame(
            aes256gcm_seal(key, n, data),
            n,
        )
}

/// The view of a result that carries bytes or an error text.
pub open spec fn bytes_result_view(r: Result<Vec<u8>, String>) -> Result<Seq<u8>, Seq<char>> {
    match r {
        Ok(b) => Ok(b@),
        Err(e) => Err(e@),
    }
}

/// The view of a result that carries a text or an error text.
pub open spec fn text_result_view(r: Result<String, String>) -> Result<Seq<char>, Seq<char>> {
    match r {
        Ok(s) => Ok(s@),
        Err(e) => Err(e@),
    }
}

/// A `String` holding the characters of a literal.
pub fn string_from(s: &str) -> (out: String)
    ensures
        out@ == s@,
{
    string_of(&chars_of(s))
}

/// Reading back four big-endian bytes gives the number.
pub proof fn lemma_be32(x: nat)
    requires
        x < 0x1_0000_0000,
    ensures
        be32(x).len() == 4,
        be32_value(be32(x)) == x,
{
    let b = be32(x);
    assert(b[0] == x / 0x100_0000);
    assert(b[1] == (x / 0x1_0000) % 256);
    assert(b[2] == (x / 0x100) % 256);
    assert(b[3] == x % 256);
    assert(b[0] * 0x100_0000 + b[1] * 0x1_0000 + b[2] * 0x100 + b[3] == x) by (nonlinear_arith)
        requires
            x < 0x1_0000_0000,
            b[0] == x / 0x100_0000,
            b[1] == (x / 0x1_0000) % 256,
            b[2] == (x / 0x100) % 256,
            b[3] == x % 256,
    ;
}

/// A frame built from a ciphertext shorter than 2^32 bytes and a 12-byte nonce
/// gives them back.
pub proof fn lemma_parse_binary_frame(ciphertext: Seq<u8>, nonce: Seq<u8>)
    requires
        ciphertext.len() < 0x1_0000_0000,
        nonce.len() == 12,
        ciphertext.len() >= 0,
    ensures
        ciphertext.len() + 16 >= 16 ==> parse_binary_frame(binary_frame(ciphertext, nonce)) == Some(
            (ciphertext, nonce),
        ),
{
    let n: int = ciphertext.len() as int;
    lemma_be32(n as nat);
    let f = binary_frame(ciphertext, nonce);
    assert(f.take(4) =~= be32(n as nat));
    assert(f.subrange(4, 4 + n) =~= ciphertext);
    assert(f.subrange(4 + n, 4 + n + 12) =~= nonce);
}

/// The four big-endian bytes of `x`.
pub fn be32_bytes(x: u32) -> (out: Vec<u8>)
    ensures
        out@ == be32(x as nat),
{
    let mut out: Vec<u8> = Vec::new();
    out.push((x / 0x100_0000) as u8);
    out.push(((x / 0x1_0000) % 256) as u8);
    out.push(((x / 0x100) % 256) as u8);
    out.push((x % 256) as u8);
    assert(out@ =~= be32(x as nat));
    out
}

/// Encrypts `data` under `key` with the given nonce and frames it: the ciphertext's
/// length (modulo 2^32) in four big-endian bytes, the ciphertext, then the nonce.
/// Fails exactly when AES-256-GCM refuses the plaintext (longer than 2^36 bytes).
pub fn encrypt_binary_with_nonce(data: &str, key: &[u8; 32], nonce: &[u8; 12]) -> (r: Result<
    Vec<u8>,
    aes_gcm::Error,
>)
    ensures
        r is Ok <==> data.spec_bytes().len() <= aes_gcm_max_plaintext(),
        r matches Ok(f) ==> f@ == binary_frame(aes256gcm_seal(key@, nonce@, data.spec_bytes()), nonce@)
            && aes_sealed(key@, nonce@, data.spec_bytes()),
{
    let plaintext = data.as_bytes();
    let cipher_text = match aes256gcm_encrypt(key, nonce, plaintext) {
        Ok(c) => c,
        Err(e) => return Err(e),
    };
    let wrapped_len = ((cipher_text.len() as u64) % 0x1_0000_0000) as u32;
    let length = be32_bytes(wrapped_len);
    let mut result: Vec<u8> = Vec::new();
    result.extend_from_slice(length.as_slice());
    result.extend_from_slice(cipher_text.as_slice());
    result.extend_from_slice(nonce.as_slice());
    assert(result@ =~= binary_frame(cipher_text@, nonce@));
    Ok(result)
}

/// Encrypts `data` under `key` with a fresh random nonce and frames it (see
/// `encrypt_binary_with_nonce`); the nonce is whatever the system's generator gave.
pub fn encrypt_binary(data: &str, key: &[u8; 32]) -> (r: Result<Vec<u8>, aes_gcm::Error>)
    ensures
        r is Ok <==> data.spec_bytes().len() <= aes_gcm_max_plaintext(),
        r matches Ok(f) ==> is_binary_encryption(f@, key@, data.spec_bytes()),
{
    let nonce = aes_random_nonce();
    let r = encrypt_binary_with_nonce(data, key, &nonce);
    proof {
        if r is Ok {
            let n = nonce@;
            assert(n.len() == 12);
            assert(binary_frame(aes256gcm_seal(key@, n, data.spec_bytes()), n) == r->Ok_0@);
        }
    }
    r
}

/// Reads a binary frame and decrypts it under `key`: `Data too short` below 16
/// bytes, `Data length mismatch` when the frame is shorter than its stated length
/// with header and nonce, `Decryption failed: Error` when the tag does not check.
pub fn decrypt_binary(data: &[u8], key: &[u8; 32]) -> (r: Result<Vec<u8>, String>)
    ensures
        bytes_result_view(r) == decrypt_binary_result(data@, key@),
{
    if data.len() < 4 + 12 {
        return Err(string_from("Data too short"));
    }
    let len: u64 = (data[0] as u64) * 0x100_0000 + (data[1] as u64) * 0x1_0000 + (data[2] as u64)
        * 0x100 + (data[3] as u64);
    assert(len == be32_value(data@.take(4)));
    if (data.len() as u64) < 4 + len + 12 {
        return Err(string_from("Data length mismatch"));
    }
    let l = len as usize;
    let cipher_text = vstd::slice::slice_subrange(data, 4, 4 + l);
    let nonce_bytes = vstd::slice::slice_subrange(data, 4 + l, 4 + l + 12);
    let mut nonce = [0u8; 12];
    let mut i: usize = 0;
    while i < 12
        invariant
            i <= 12,
            nonce_bytes@.len() == 12,
            forall|k: int| 0 <= k < i ==> nonce@[k] == nonce_bytes@[k],
        decreases 12 - i,
    {
        nonce[i] = nonce_bytes[i];
        i = i + 1;
    }
    assert(nonce@ =~= nonce_bytes@);
    match aes256gcm_decrypt(key, &nonce, cipher_text) {
        Ok(p) => Ok(p),
        Err(_) => Err(string_from("Decryption failed: Error")),
    }
}

/// Decrypting, under the same key, a binary frame that encrypting `data` made gives
/// `data` back, when the ciphertext (16 bytes longer than `data`) is shorter than
/// 2^32 bytes, so that its length survives the four-byte header.
pub proof fn law_binary_roundtrip(frame: Seq<u8>, key: Seq<u8>, data: Seq<u8>)
    requires
        is_binary_encryption(frame, key, data),
        data.len() + aead_tag_len() < 0x1_0000_0000,
    ensures
        decrypt_binary_result(frame, key) == Ok::<Seq<u8>, Seq<char>>(data),
{
    let n = choose|n: Seq<u8>|
        n.len() == 12 && aes_sealed(key, n, data) && frame == #[trigger] binary_frame(
            aes256gcm_seal(key, n, data),
            n,
        );
    lemma_parse_binary_frame(aes256gcm_seal(key, n, data), n);
}

/// The index of the first `::` in `s`, or `s.len()` when there is none.
pub open spec fn divider_index(s: Seq<char>) -> int
    decreases s.len(),
{
    if s.len() < 2 {
        s.len() as int
    } else if s[0] == ':' && s[1] == ':' {
        0
    } else {
        1 + divider_index(s.drop_first())
    }
}

/// Whether a `::` starts at index `k` of `s`.
pub open spec fn divider_at(s: Seq<char>, k: int) -> bool {
    0 <= k && k + 1 < s.len() && s[k] == ':' && s[k + 1] == ':'
}

/// The two parts of `s` around its only `::`, as `s.split("::")` gives them when
/// they are exactly two; `None` otherwise.
pub open spec fn split_divider(s: Seq<char>) -> Option<(Seq<char>, Seq<char>)> {
    let i = divider_index(s);
    if i < s.len() {
        let rest = s.skip(i + 2);
        if divider_index(rest) < rest.len() {
            None
        } else {
            Some((s.take(i), rest))
        }
    } else {
        None
    }
}

/// The text form: the Base64 ciphertext, `::`, then the Base64 nonce.
pub open spec fn text_envelope(ciphertext: Seq<u8>, nonce: Seq<u8>) -> Seq<char> {
    base64_standard_encode(ciphertext) + seq![':', ':'] + base64_standard_encode(nonce)
}

/// Whether the text form's decryption of `data` would stop on a nonce that is not
/// 12 bytes long: it has two parts, both decode, and the nonce part has another length.
pub open spec fn decrypt_text_stops(data: Seq<char>) -> bool {
    match split_divider(data) {
        Some((c, n)) => base64_standard_decode(c) is Ok && base64_standard_decode(n) is Ok
            && base64_standard_decode(n)->Ok_0.len() != 12,
        None => false,
    }
}

/// What `decrypt` gives for `data` under `key`: the plaintext, or the text of the error.
pub open spec fn decrypt_text_result(data: Seq<char>, key: Seq<u8>) -> Result<Seq<char>, Seq<char>> {
    match split_divider(data) {
        None => Err("Invalid encrypted format"@),
        Some((c, n)) => match base64_standard_decode(c) {
            Err(e) => Err(e),
            Ok(ciphertext) => match base64_standard_decode(n) {
                Err(e) => Err(e),
                Ok(nonce) => match aes256gcm_open(key, nonce, ciphertext) {
                    None => Err("Decryption failed: Error"@),
                    Some(p) => if valid_utf8(p) {
                        Ok(decode_utf8(p))
                    } else {
                        Err(utf8_error_text(p))
                    },
                },
            },
        },
    }
}

/// `divider_index` is the first position of a `::`, or the length.
pub proof fn lemma_divider_index(s: Seq<char>, m: int)
    requires
        0 <= m <= s.len(),
        forall|k: int| 0 <= k < m ==> !divider_at(s, k),
        m == s.len() || divider_at(s, m),
    ensures
        divider_index(s) == m,
    decreases s.len(),
{
    if s.len() >= 2 && s[0] == ':' && s[1] == ':' {
        assert(divider_at(s, 0));
        if m > 0 {
            assert(!divider_at(s, 0));
        }
    }
    if s.len() >= 2 && !(s[0] == ':' && s[1] == ':') {
        assert(!divider_at(s, 0));
        if m == 0 {
            assert(divider_at(s, 0));
        }
        assert forall|k: int| 0 <= k < m - 1 implies !divider_at(s.drop_first(), k) by {
            assert(!divider_at(s, k + 1));
        }
        if m < s.len() {
            assert(divider_at(s.drop_first(), m - 1));
        }
        lemma_divider_index(s.drop_first(), m - 1);
    } else if s.len() < 2 {
        if m < s.len() {
            assert(divider_at(s, m));
        }
    }
}

/// Where `divider_index` is below the length, a `::` starts there.
pub proof fn lemma_divider_index_found(s: Seq<char>)
    ensures
        0 <= divider_index(s) <= s.len(),
        divider_index(s) < s.len() ==> divider_at(s, divider_index(s)),
    decreases s.len(),
{
    if s.len() >= 2 && !(s[0] == ':' && s[1] == ':') {
        lemma_divider_index_found(s.drop_first());
        let d = divider_index(s.drop_first());
        if d < s.len() - 1 {
            assert(divider_at(s.drop_first(), d));
            assert(s[d + 1] == s.drop_first()[d]);
            assert(s[d + 2] == s.drop_first()[d + 1]);
        }
    }
}

/// The index of the first `::` in `v` at or after `from`, or `v.len()`.
pub fn find_divider(v: &Vec<char>, from: usize) -> (i: usize)
    requires
        from <= v.len(),
    ensures
        from <= i <= v.len(),
        i - from == divider_index(v@.skip(from as int)),
{
    let ghost s = v@.skip(from as int);
    let mut i = from;
    while i < v.len() && v.len() - i >= 2 && !(v[i] == ':' && v[i + 1] == ':')
        invariant
            from <= i <= v.len(),
            s == v@.skip(from as int),
            forall|k: int| 0 <= k < i - from ==> !divider_at(s, k),
        decreases v.len() - i,
    {
        assert(!divider_at(s, i - from));
        i = i + 1;
    }
    if i < v.len() && v.len() - i >= 2 {
        assert(divider_at(s, i - from));
        proof {
            lemma_divider_index(s, i - from);
        }
        i
    } else {
        assert forall|k: int| 0 <= k < s.len() implies !divider_at(s, k) by {
            if k >= i - from {
                assert(k + 1 >= s.len());
            }
        }
        proof {
            lemma_divider_index(s, s.len() as int);
        }
        v.len()
    }
}

/// The two parts of `v` around its only `::` (see `split_divider`).
pub fn split_divider_chars(v: &Vec<char>) -> (r: Option<(Vec<char>, Vec<char>)>)
    ensures
        match split_divider(v@) {
            None => r is None,
            Some((a, b)) => r matches Some((x, y)) && x@ == a && y@ == b,
        },
{
    assert(v@.skip(0) =~= v@);
    let i = find_divider(v, 0);
    if i == v.len() {
        return None;
    }
    proof {
        lemma_divider_index_found(v@);
    }
    let j = find_divider(v, i + 2);
    if j < v.len() {
        return None;
    }
    let a = copy_range(v, 0, i);
    let b = copy_range(v, i + 2, v.len());
    assert(a@ =~= v@.take(i as int));
    assert(b@ =~= v@.skip(i + 2));
    Some((a, b))
}

/// Whether the Base64 text of `bytes` uses only the alphabet and decodes back to `bytes`.
pub open spec fn base64_clean(bytes: Seq<u8>) -> bool {
    &&& forall|k: int|
        0 <= k < base64_standard_encode(bytes).len() ==> is_base64_char(
            #[trigger] base64_standard_encode(bytes)[k],
        )
    &&& base64_standard_decode(base64_standard_encode(bytes)) is Ok
    &&& base64_standard_decode(base64_standard_encode(bytes))->Ok_0 == bytes
}

/// Whether `text` is the text form of `data` encrypted under `key` with some nonce.
pub open spec fn is_text_encryption(text: Seq<char>, key: Seq<u8>, data: Seq<u8>) -> bool {
    exists|n: Seq<u8>|
        n.len() == 12 && aes_sealed(key, n, data) && base64_clean(aes256gcm_seal(key, n, data))
            && base64_clean(n) && text == #[trigger] text_envelope(aes256gcm_seal(key, n, data), n)
}

/// Encrypts `data` under `key` with the given nonce into the text form: the Base64
/// ciphertext, `::`, the Base64 nonce. Fails exactly when AES-256-GCM refuses the
/// plaintext.
pub fn encrypt_with_nonce(data: &str, key: &[u8; 32], nonce: &[u8; 12]) -> (r: Result<
    String,
    aes_gcm::Error,
>)
    requires
        base64_encodable(data.spec_bytes().len() + aead_tag_len()),
    ensures
        r is Ok <==> data.spec_bytes().len() <= aes_gcm_max_plaintext(),
        r matches Ok(t) ==> t@ == text_envelope(aes256gcm_seal(key@, nonce@, data.spec_bytes()), nonce@)
            && aes_sealed(key@, nonce@, data.spec_bytes()) && base64_clean(
            aes256gcm_seal(key@, nonce@, data.spec_bytes()),
        ) && base64_clean(nonce@),
{
    let cipher_text = match aes256gcm_encrypt(key, nonce, data.as_bytes()) {
        Ok(c) => c,
        Err(e) => return Err(e),
    };
    let string_cipher_text = base64_encode(cipher_text.as_slice());
    let string_nonce = base64_encode(nonce.as_slice());
    let mut out: Vec<char> = chars_of(string_cipher_text.as_str());
    push_str_chars(&mut out, DIVIDER);
    push_str_chars(&mut out, string_nonce.as_str());
    proof {
        reveal_strlit("::");
        assert(out@ =~= text_envelope(cipher_text@, nonce@));
    }
    Ok(string_of(&out))
}

/// Encrypts `data` under `key` with a fresh random nonce into the text form (see
/// `encrypt_with_nonce`).
pub fn encrypt(data: &str, key: &[u8; 32]) -> (r: Result<String, aes_gcm::Error>)
    requires
        base64_encodable(data.spec_bytes().len() + aead_tag_len()),
    ensures
        r is Ok <==> data.spec_bytes().len() <= aes_gcm_max_plaintext(),
        r matches Ok(t) ==> is_text_encryption(t@, key@, data.spec_bytes()),
{
    let nonce = aes_random_nonce();
    let r = encrypt_with_nonce(data, key, &nonce);
    proof {
        if r is Ok {
            let n = nonce@;
            assert(text_envelope(aes256gcm_seal(key@, n, data.spec_bytes()), n) == r->Ok_0@);
        }
    }
    r
}

/// The 12 bytes of `b` as an array.
fn array12(b: &[u8]) -> (out: [u8; 12])
    requires
        b@.len() == 12,
    ensures
        out@ == b@,
{
    let mut out = [0u8; 12];
    let mut i: usize = 0;
    while i < 12
        invariant
            i <= 12,
            b@.len() == 12,
            forall|k: int| 0 <= k < i ==> out@[k] == b@[k],
        decreases 12 - i,
    {
        out[i] = b[i];
        i = i + 1;
    }
    assert(out@ =~= b@);
    out
}

/// Decrypts the text form under `key`: `Invalid encrypted format` unless `::` splits
/// the text into exactly two parts; the Base64 error of either part; `Decryption
/// failed: Error` when the tag does not check; the UTF-8 error when the plaintext is
/// not UTF-8. A nonce part that decodes to other than 12 bytes is outside the
/// inputs (it would stop the program); `try_decrypt` checks for it.
pub fn decrypt(data: &str, key: &[u8; 32]) -> (r: Result<String, String>)
    requires
        !decrypt_text_stops(data@),
    ensures
        text_result_view(r) == decrypt_text_result(data@, key@),
{
    let v = chars_of(data);
    let (c, n) = match split_divider_chars(&v) {
        Some(p) => p,
        None => return Err(string_from("Invalid encrypted format")),
    };
    let c_text = string_of(&c);
    let n_text = string_of(&n);
    let cipher_text = match base64_decode(c_text.as_str()) {
        Ok(b) => b,
        Err(e) => return Err(e),
    };
    let nonce_bytes = match base64_decode(n_text.as_str()) {
        Ok(b) => b,
        Err(e) => return Err(e),
    };
    let nonce = array12(nonce_bytes.as_slice());
    match aes256gcm_decrypt(key, &nonce, cipher_text.as_slice()) {
        Err(_) => Err(string_from("Decryption failed: Error")),
        Ok(p) => string_from_utf8(p),
    }
}

/// Whether the decryption of the text form would stop on its nonce part (see
/// `decrypt_text_stops`).
pub fn text_nonce_stops(data: &str) -> (b: bool)
    ensures
        b == decrypt_text_stops(data@),
{
    let v = chars_of(data);
    if let Some((c, n)) = split_divider_chars(&v) {
        let c_text = string_of(&c);
        let n_text = string_of(&n);
        if let Ok(_) = base64_decode(c_text.as_str()) {
            if let Ok(nb) = base64_decode(n_text.as_str()) {
                return nb.len() != 12;
            }
        }
    }
    false
}

/// Decrypts the text form under `key` (see `decrypt`), first checking what would
/// stop it: `None` when the nonce part decodes to other than 12 bytes.
pub fn try_decrypt(data: &str, key: &[u8; 32]) -> (r: Option<Result<String, String>>)
    ensures
        r is None <==> decrypt_text_stops(data@),
        r matches Some(x) ==> text_result_view(x) == decrypt_text_result(data@, key@),
{
    if text_nonce_stops(data) {
        return None;
    }
    Some(decrypt(data, key))
}

/// The same as `encrypt`, as the command-line client names it.
pub fn encrypt_message(data: &str, key: &[u8; 32]) -> (r: Result<String, aes_gcm::Error>)
    requires
        base64_encodable(data.spec_bytes().len() + aead_tag_len()),
    ensures
        r is Ok <==> data.spec_bytes().len() <= aes_gcm_max_plaintext(),
        r matches Ok(t) ==> is_text_encryption(t@, key@, data.spec_bytes()),
{
    encrypt(data, key)
}

/// The same as `decrypt`, as the command-line client names it.
pub fn decrypt_message(data: &str, key: &[u8; 32]) -> (r: Result<String, String>)
    requires
        !decrypt_text_stops(data@),
    ensures
        text_result_view(r) == decrypt_text_result(data@, key@),
{
    decrypt(data, key)
}

/// The text form of `ciphertext` and `nonce`, both Base64-clean, splits at its `::`
/// into the two Base64 texts.
pub proof fn lemma_split_text_envelope(ciphertext: Seq<u8>, nonce: Seq<u8>)
    requires
        base64_clean(ciphertext),
        base64_clean(nonce),
    ensures
        split_divider(text_envelope(ciphertext, nonce)) == Some(
            (base64_standard_encode(ciphertext), base64_standard_encode(nonce)),
        ),
{
    let a = base64_standard_encode(ciphertext);
    let b = base64_standard_encode(nonce);
    let s = text_envelope(ciphertext, nonce);
    assert forall|k: int| 0 <= k < a.len() implies !divider_at(s, k) by {
        assert(s[k] == a[k]);
        assert(is_base64_char(a[k]));
    }
    assert(divider_at(s, a.len() as int));
    lemma_divider_index(s, a.len() as int);
    let rest = s.skip(a.len() as int + 2);
    assert(rest =~= b);
    assert forall|k: int| 0 <= k < b.len() implies !divider_at(b, k) by {
        assert(is_base64_char(b[k]));
    }
    lemma_divider_index(b, b.len() as int);
    assert(s.take(a.len() as int) =~= a);
}

/// Decrypting, under the same key, the text form that encrypting a text made gives
/// the text back, and never stops.
pub proof fn law_text_roundtrip(text: Seq<char>, key: Seq<u8>, data: Seq<char>)
    requires
        is_text_encryption(text, key, vstd::utf8::encode_utf8(data)),
    ensures
        !decrypt_text_stops(text),
        decrypt_text_result(text, key) == Ok::<Seq<char>, Seq<char>>(data),
{
    let d = vstd::utf8::encode_utf8(data);
    let n = choose|n: Seq<u8>|
        n.len() == 12 && aes_sealed(key, n, d) && base64_clean(aes256gcm_seal(key, n, d))
            && base64_clean(n) && text == #[trigger] text_envelope(aes256gcm_seal(key, n, d), n);
    lemma_split_text_envelope(aes256gcm_seal(key, n, d), n);
    vstd::utf8::encode_utf8_valid_utf8(data);
    vstd::utf8::encode_utf8_decode_utf8(data);
}

} // verus!
