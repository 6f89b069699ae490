//! The client's keys: the key-exchange pair, the session key, the end-to-end pair,
//! the recipients' public keys, and the decisions of the handshake.

use vstd::prelude::*;

use vstd::utf8::encode_utf8;

use crate::crypt::asymmetric::{decrypt_stops, is_message_too_long, message_too_long, decrypt, decrypt_result, encrypt, generate_keypair, is_asymmetric_encryption};
use crate::crypt::primitives::{aes_gcm_max_plaintext, agrees_with_all, x25519_base};
use crate::crypt::symmetric::{bytes_result_view, is_binary_encryption, string_from};
use crate::crypt::utils::{base64_decode, base64_encode, base64_standard_decode, base64_standard_encode, string_from_utf8_lossy, utf8_lossy};
use crate::protocol_utils::fctp::{code_value, get_current_recipient, get_server_id, encapsulate_to_fctp, quoted, wire_text, FctpCode, FctpMessage};
use crate::protocol_utils::fctp_me::get_id;
use crate::fctp_text::{lemma_base64_text_len, lemma_message_text_len};
use crate::protocol_utils::session::{is_zero_key, zero_key, ClientState, ClientView};
use crate::text::{chars_of, nat_digits, push_chars, push_nat_digits, push_str_chars, string_of, trim, trim_chars};

verus! {

/// Records the key-exchange key pair.
pub fn set_exchange(state: &mut ClientState, new_pubkey: [u8; 32], new_sec: [u8; 32])
    ensures
        final(state)@ == (ClientView { exchange_pub: new_pubkey@, exchange_sec: new_sec@, ..old(state)@ }),
{
    state.exchange_pub = new_pubkey;
    state.exchange_sec = new_sec;
}

/// The key-exchange public key.
pub fn get_exchange_pub(state: &ClientState) -> (k: [u8; 32])
    ensures
        k@ == state@.exchange_pub,
{
    state.exchange_pub
}

/// The key-exchange secret key.
pub fn get_exchange_sec(state: &ClientState) -> (k: [u8; 32])
    ensures
        k@ == state@.exchange_sec,
{
    state.exchange_sec
}

/// Records the session key.
pub fn set_session_key(state: &mut ClientState, new_session_key: [u8; 32])
    ensures
        final(state)@ == (ClientView { session_key: new_session_key@, ..old(state)@ }),
{
    state.session_key = new_session_key;
}

/// The session key.
pub fn get_session_key(state: &ClientState) -> (k: [u8; 32])
    ensures
        k@ == state@.session_key,
{
    state.session_key
}

/// Records the end-to-end key pair.
pub fn set_e2ee(state: &mut ClientState, new_pubkey: [u8; 32], new_sec: [u8; 32])
    ensures
        final(state)@ == (ClientView { e2ee_pub: new_pubkey@, e2ee_sec: new_sec@, ..old(state)@ }),
{
    state.e2ee_pub = new_pubkey;
    state.e2ee_sec = new_sec;
}

/// The end-to-end public key.
pub fn get_e2ee_pub(state: &ClientState) -> (k: [u8; 32])
    ensures
        k@ == state@.e2ee_pub,
{
    state.e2ee_pub
}

/// The end-to-end secret key.
pub fn get_e2ee_sec(state: &ClientState) -> (k: [u8; 32])
    ensures
        k@ == state@.e2ee_sec,
{
    state.e2ee_sec
}

/// The public key recorded for `username`, if any.
pub fn get_pk_from_e2ee_key_table(state: &ClientState, username: &str) -> (r: Option<[u8; 32]>)
    ensures
        r is None <==> !state@.key_table.contains_key(username@),
        r matches Some(k) ==> k@ == state@.key_table[username@],
{
    match state.key_table.get(username) {
        Some(k) => Some(*k),
        None => None,
    }
}

/// Whether a public key is recorded for `username`.
pub fn has_pk_in_e2ee_key_table(state: &ClientState, username: &str) -> (b: bool)
    ensures
        b == state@.key_table.contains_key(username@),
{
    state.key_table.contains(username)
}

/// Records `key` as the public key of `username`.
pub fn insert_pk_in_e2ee_key_table(state: &mut ClientState, username: &str, key: [u8; 32])
    ensures
        final(state)@ == (ClientView { key_table: old(state)@.key_table.insert(username@, key@), ..old(state)@ }),
{
    state.key_table.insert(username, key);
}

/// Removes the public key of `username`; tells whether there was one.
pub fn remove_pk_from_e2ee_key_table(state: &mut ClientState, username: &str) -> (removed: bool)
    ensures
        removed == old(state)@.key_table.contains_key(username@),
        final(state)@ == (ClientView { key_table: old(state)@.key_table.remove(username@), ..old(state)@ }),
{
    state.key_table.remove(username)
}

/// Removes the public key of `username` when it is `key`; tells whether it did.
pub fn remove_pk_if_matches(state: &mut ClientState, username: &str, key: [u8; 32]) -> (removed: bool)
    ensures
        removed == (old(state)@.key_table.contains_key(username@) && old(state)@.key_table[username@] == key@),
        final(state)@ == (ClientView {
            key_table: if removed {
                old(state)@.key_table.remove(username@)
            } else {
                old(state)@.key_table
            },
            ..old(state)@
        }),
{
    state.key_table.remove_if_matches(username, key)
}

/// Forgets every recipient's public key.
pub fn clear_e2ee_key_table(state: &mut ClientState)
    ensures
        final(state)@ == (ClientView { key_table: Map::empty(), ..old(state)@ }),
{
    state.key_table.clear();
}

/// What a handshake-phase line from the server asks for.
pub enum HandshakeStep {
    /// The server's certificate public key, to be checked by the user's fingerprint
    /// verification and answered with the client's key-exchange public key.
    Certificate([u8; 32]),
    /// The session key, encrypted to the client's key-exchange public key.
    SessionKey(Vec<u8>),
}

/// The text and the bytes that `text` followed by a blank line sends.
pub open spec fn line_packet(text: Seq<char>) -> Seq<u8> {
    encode_utf8(text + seq!['\r', '\n', '\r', '\n'])
}

/// What a handshake-phase line gives: the Base64 of its trimmed lossy text is
/// decoded; before any key exchange it must be the 32-byte certificate key,
/// afterwards it is the encrypted session key.
pub open spec fn handshake_step_result(exchange_pub: Seq<u8>, data: Seq<u8>) -> Result<(bool, Seq<u8>), Seq<char>> {
    match base64_standard_decode(trim(utf8_lossy(data))) {
        Err(e) => Err("Base64 decode error: "@ + e),
        Ok(decoded) => if exchange_pub == zero_key() {
            if decoded.len() != 32 {
                Err("Invalid certificate key length: "@ + nat_digits(decoded.len()))
            } else {
                Ok((true, decoded))
            }
        } else {
            Ok((false, decoded))
        },
    }
}

/// The view of a handshake step: whether it is the certificate phase, and its bytes.
pub open spec fn step_view(r: Result<HandshakeStep, String>) -> Result<(bool, Seq<u8>), Seq<char>> {
    match r {
        Ok(HandshakeStep::Certificate(k)) => Ok((true, k@)),
        Ok(HandshakeStep::SessionKey(b)) => Ok((false, b@)),
        Err(e) => Err(e@),
    }
}

/// A `String` with the characters of `a` followed by the decimal digits of `n`.
fn text_with_number(a: &str, n: u64) -> (out: String)
    ensures
        out@ == a@ + nat_digits(n as nat),
{
    let mut v = chars_of(a);
    push_nat_digits(&mut v, n);
    string_of(&v)
}

/// A `String` with the characters of `a` followed by those of `b`.
fn text_join(a: &str, b: &str) -> (out: String)
    ensures
        out@ == a@ + b@,
{
    let mut v = chars_of(a);
    push_str_chars(&mut v, b);
    string_of(&v)
}

/// The 32 bytes of `b` as an array.
pub fn key_array(b: &[u8]) -> (out: [u8; 32])
    requires
        b@.len() == 32,
    ensures
        out@ == b@,
{
    let mut out = [0u8; 32];
    let mut i: usize = 0;
    while i < 32
        invariant
            i <= 32,
            b@.len() == 32,
            forall|k: int| 0 <= k < i ==> out@[k] == b@[k],
        decreases 32 - i,
    {
        out[i] = b[i];
        i = i + 1;
    }
    assert(out@ =~= b@);
    out
}

/// Reads a handshake-phase line from the server (see `handshake_step_result`).
pub fn handle_handshake_message(state: &ClientState, data: &[u8]) -> (r: Result<HandshakeStep, String>)
    ensures
        step_view(r) == handshake_step_result(state@.exchange_pub, data@),
{
    let lossy = string_from_utf8_lossy(data);
    let message = string_of(&trim_chars(&chars_of(lossy.as_str())));
    let decoded = match base64_decode(message.as_str()) {
        Ok(d) => d,
        Err(e) => return Err(text_join("Base64 decode error: ", e.as_str())),
    };
    if is_zero_key(&state.exchange_pub) {
        if decoded.len() != 32 {
            return Err(text_with_number("Invalid certificate key length: ", decoded.len() as u64));
        }
        Ok(HandshakeStep::Certificate(key_array(decoded.as_slice())))
    } else {
        Ok(HandshakeStep::SessionKey(decoded))
    }
}

/// Whether `packet` is the key-exchange reply to `cert_pub`: the Base64 of
/// `exchange_pub` encrypted to `cert_pub`, then a blank line.
pub open spec fn is_exchange_reply(packet: Seq<u8>, cert_pub: Seq<u8>, exchange_pub: Seq<u8>) -> bool {
    exists|m: Seq<u8>| is_asymmetric_encryption(m, cert_pub, exchange_pub) && packet == #[trigger] line_packet(base64_standard_encode(m))
}

/// The bytes of a `String`.
fn string_bytes(s: &String) -> (out: Vec<u8>)
    ensures
        out@ == encode_utf8(s@),
{
    vstd::slice::slice_to_vec(s.as_str().as_bytes())
}

/// Answers the server's certificate key, once the user has verified its
/// fingerprint: makes a fresh key-exchange pair, records it, and gives the reply
/// that carries the public half encrypted to the certificate key.
pub fn handle_certificate_exchange(state: &mut ClientState, cert_pub: &[u8; 32]) -> (r: Result<Vec<u8>, String>)
    ensures
        r is Ok,
        x25519_base(final(state)@.exchange_sec) == final(state)@.exchange_pub,
        final(state)@ == (ClientView {
            exchange_pub: final(state)@.exchange_pub,
            exchange_sec: final(state)@.exchange_sec,
            ..old(state)@
        }),
        r matches Ok(p) ==> is_exchange_reply(p@, cert_pub@, final(state)@.exchange_pub),
{
    let (rec_sec, rec_pub) = generate_keypair();
    set_exchange(state, rec_pub, rec_sec);
    let encrypted = match encrypt(cert_pub, rec_pub.as_slice()) {
        Ok(m) => m,
        Err(e) => {
            assert(false);
            return Err(text_join("Encryption error: ", e.as_str()));
        },
    };
    let encoded = base64_encode(encrypted.as_slice());
    let mut text = chars_of(encoded.as_str());
    push_str_chars(&mut text, "\r\n\r\n");
    proof {
        reveal_strlit("\r\n\r\n");
        assert(text@ =~= base64_standard_encode(encrypted@) + seq!['\r', '\n', '\r', '\n']);
    }
    let packet_text = string_of(&text);
    let packet = string_bytes(&packet_text);
    assert(line_packet(base64_standard_encode(encrypted@)) == packet@);
    Ok(packet)
}

/// The error text of an encryption failure of a message that the handshake sends,
/// as `Debug` writes the `FctpError`.
pub open spec fn encryption_failure_text(what: Seq<char>) -> Seq<char> {
    "FctpError creating "@ + what + ": EncryptionFailed(\"Error\")"@
}

/// Encrypts `message` under the session key for the handshake; a failure gives the
/// `Debug` text of the `FctpError`, after `FctpError creating <what>: `.
fn handshake_packet(message: &FctpMessage, session_key: &[u8; 32], what: &str) -> (r: Result<Vec<u8>, String>)
    ensures
        r is Ok <==> encode_utf8(wire_text(message@)).len() <= aes_gcm_max_plaintext(),
        r matches Ok(p) ==> is_binary_encryption(p@, session_key@, encode_utf8(wire_text(message@))),
        r matches Err(e) ==> e@ == encryption_failure_text(what@),
{
    match encapsulate_to_fctp(message, session_key) {
        Ok(p) => Ok(p),
        Err(_) => {
            let mut v = chars_of("FctpError creating ");
            push_str_chars(&mut v, what);
            push_str_chars(&mut v, ": EncryptionFailed(\"Error\")");
            Err(string_of(&v))
        },
    }
}

/// Takes the session key that the server sent, encrypted to the key-exchange public
/// key: decrypts it with the key-exchange secret, checks that it has 32 bytes,
/// records it, and gives the `Hello` message that asks the server for this client's
/// identifier, encrypted under the new session key. On a failure to decrypt or a
/// key of another length nothing changes. The inputs on which XChaCha20 would panic
/// (see `decrypt_stops`) are outside the inputs.
pub fn establish_session_key(state: &mut ClientState, decoded: &[u8]) -> (r: Result<Vec<u8>, String>)
    requires
        !decrypt_stops(old(state)@.exchange_sec, decoded@),
    ensures
        match decrypt_result(old(state)@.exchange_sec, decoded@) {
            Err(e) => bytes_result_view(r) == Err::<Seq<u8>, Seq<char>>("Session key decryption error: "@ + quoted(e))
                && final(state)@ == old(state)@,
            Ok(k) => if k.len() != 32 {
                bytes_result_view(r) == Err::<Seq<u8>, Seq<char>>("Invalid session key length: "@ + nat_digits(k.len()))
                    && final(state)@ == old(state)@
            } else {
                let hello = (FctpCode::Hello, old(state)@.id, "id"@, old(state)@.server_id);
                &&& final(state)@ == (ClientView { session_key: k, ..old(state)@ })
                &&& (r is Ok <==> encode_utf8(wire_text(hello)).len() <= aes_gcm_max_plaintext())
                &&& (r matches Ok(p) ==> is_binary_encryption(p@, k, encode_utf8(wire_text(hello))))
                &&& (r matches Err(e) ==> e@ == encryption_failure_text("Hello"@))
            },
        },
{
    let decrypted = match decrypt(&state.exchange_sec, decoded) {
        Ok(d) => d,
        Err(e) => {
            let mut v = chars_of("Session key decryption error: \"");
            push_str_chars(&mut v, e.as_str());
            push_str_chars(&mut v, "\"");
            proof {
                reveal_strlit("Session key decryption error: \"");
                reveal_strlit("Session key decryption error: ");
                reveal_strlit("\"");
                assert(v@ =~= "Session key decryption error: "@ + quoted(e@));
            }
            return Err(string_of(&v));
        },
    };
    if decrypted.len() != 32 {
        return Err(text_with_number("Invalid session key length: ", decrypted.len() as u64));
    }
    let key = key_array(decrypted.as_slice());
    set_session_key(state, key);
    let server_id = get_server_id(state);
    let id = get_id(state);
    let hello = FctpMessage::new(FctpCode::Hello, id.as_str(), "id", server_id.as_str());
    handshake_packet(&hello, &state.session_key, "Hello")
}

/// The number of bytes of the wire text of a message with an empty body.
pub open spec fn empty_body_len(code: FctpCode, from: Seq<char>, to: Seq<char>) -> int {
    encode_utf8(wire_text((code, from, Seq::empty(), to))).len() as int
}

/// Makes a fresh end-to-end key pair, records it, and gives the `PublicKeyExchange`
/// message that announces its public half (in Base64, 44 characters) to the server,
/// encrypted under the session key: it succeeds exactly when that text is short
/// enough for AES-256-GCM.
pub fn announce_e2ee_key(state: &mut ClientState) -> (r: Result<Vec<u8>, String>)
    ensures
        r is Ok <==> empty_body_len(FctpCode::PublicKeyExchange, old(state)@.id, old(state)@.server_id) + 44
            <= aes_gcm_max_plaintext(),
        x25519_base(final(state)@.e2ee_sec) == final(state)@.e2ee_pub,
        final(state)@ == (ClientView { e2ee_pub: final(state)@.e2ee_pub, e2ee_sec: final(state)@.e2ee_sec, ..old(state)@ }),
        ({
            let announce = (
                FctpCode::PublicKeyExchange,
                old(state)@.id,
                base64_standard_encode(final(state)@.e2ee_pub),
                old(state)@.server_id,
            );
            &&& (r is Ok <==> encode_utf8(wire_text(announce)).len() <= aes_gcm_max_plaintext())
            &&& (r matches Ok(p) ==> is_binary_encryption(p@, old(state)@.session_key, encode_utf8(wire_text(announce))))
            &&& (r matches Err(e) ==> e@ == encryption_failure_text("PublicKeyExchange"@))
        }),
{
    let (rec_sec, rec_pub) = generate_keypair();
    set_e2ee(state, rec_pub, rec_sec);
    let e2ee_pub = get_e2ee_pub(state);
    let encoded = base64_encode(e2ee_pub.as_slice());
    let server_id = get_server_id(state);
    let id = get_id(state);
    let announce = FctpMessage::new(FctpCode::PublicKeyExchange, id.as_str(), encoded.as_str(), server_id.as_str());
    proof {
        lemma_base64_text_len(encoded@);
        lemma_message_text_len(code_value(FctpCode::PublicKeyExchange), id@, encoded@, server_id@);
    }
    handshake_packet(&announce, &state.session_key, "PublicKeyExchange")
}

/// What the session-key step gives: the packets to send to the server, in order,
/// and how the step ended.
pub struct SessionKeyExchange {
    pub packets: Vec<Vec<u8>>,
    pub result: Result<(), String>,
}

/// What the session-key step does, from the state before (`old`) to the state after
/// (`new`), for the server's `decoded` message: the session key is decrypted and
/// checked; with a good key it is recorded and the `Hello` packet is made; once that
/// packet exists, a fresh end-to-end key pair is recorded and the
/// `PublicKeyExchange` packet announces its public half. The first failure ends the
/// step; the packets made before it stay to be sent.
pub open spec fn session_key_exchange_done(old: ClientView, new: ClientView, decoded: Seq<u8>, r: SessionKeyExchange) -> bool {
    match decrypt_result(old.exchange_sec, decoded) {
        Err(e) => {
            &&& r.packets@.len() == 0
            &&& r.result matches Err(t) && t@ == "Session key decryption error: "@ + quoted(e)
            &&& new == old
        },
        Ok(k) => if k.len() != 32 {
            &&& r.packets@.len() == 0
            &&& r.result matches Err(t) && t@ == "Invalid session key length: "@ + nat_digits(k.len())
            &&& new == old
        } else {
            let hello = (FctpCode::Hello, old.id, "id"@, old.server_id);
            let announce = (FctpCode::PublicKeyExchange, old.id, base64_standard_encode(new.e2ee_pub), old.server_id);
            &&& (r.result is Ok <==> encode_utf8(wire_text(hello)).len() <= aes_gcm_max_plaintext()
                && empty_body_len(FctpCode::PublicKeyExchange, old.id, old.server_id) + 44 <= aes_gcm_max_plaintext())
            &&& if encode_utf8(wire_text(hello)).len() > aes_gcm_max_plaintext() {
                &&& r.packets@.len() == 0
                &&& r.result matches Err(t) && t@ == encryption_failure_text("Hello"@)
                &&& new == (ClientView { session_key: k, ..old })
            } else {
                &&& r.packets@.len() >= 1
                &&& is_binary_encryption(r.packets@[0]@, k, encode_utf8(wire_text(hello)))
                &&& x25519_base(new.e2ee_sec) == new.e2ee_pub
                &&& new == (ClientView { session_key: k, e2ee_pub: new.e2ee_pub, e2ee_sec: new.e2ee_sec, ..old })
                &&& if encode_utf8(wire_text(announce)).len() <= aes_gcm_max_plaintext() {
                    &&& r.packets@.len() == 2
                    &&& is_binary_encryption(r.packets@[1]@, k, encode_utf8(wire_text(announce)))
                    &&& r.result is Ok
                } else {
                    &&& r.packets@.len() == 1
                    &&& r.result matches Err(t) && t@ == encryption_failure_text("PublicKeyExchange"@)
                }
            }
        },
    }
}

/// Takes the session key that the server sent and finishes the handshake (see
/// `session_key_exchange_done`): records the key and makes the `Hello` packet
/// (`establish_session_key`), then makes and records a fresh end-to-end key pair and
/// the packet that announces it (`announce_e2ee_key`). The inputs on which XChaCha20
/// would panic (see `decrypt_stops`) are outside the inputs;
/// `try_handle_session_key_exchange` checks for them.
pub fn handle_session_key_exchange(state: &mut ClientState, decoded: &[u8]) -> (r: SessionKeyExchange)
    requires
        !decrypt_stops(old(state)@.exchange_sec, decoded@),
    ensures
        session_key_exchange_done(old(state)@, final(state)@, decoded@, r),
{
    let hello = match establish_session_key(state, decoded) {
        Ok(p) => p,
        Err(e) => return SessionKeyExchange { packets: Vec::new(), result: Err(e) },
    };
    let mut packets: Vec<Vec<u8>> = Vec::new();
    packets.push(hello);
    match announce_e2ee_key(state) {
        Ok(p) => {
            packets.push(p);
            SessionKeyExchange { packets, result: Ok(()) }
        },
        Err(e) => SessionKeyExchange { packets, result: Err(e) },
    }
}

/// The session-key step (see `handle_session_key_exchange`), first checking the one
/// thing that could make XChaCha20 panic: `None`, with nothing changed, when
/// `decoded` is long enough to run its counter out (see `message_too_long`).
pub fn try_handle_session_key_exchange(state: &mut ClientState, decoded: &[u8]) -> (r: Option<SessionKeyExchange>)
    ensures
        r is None <==> message_too_long(decoded@),
        r is None ==> final(state)@ == old(state)@,
        r matches Some(x) ==> session_key_exchange_done(old(state)@, final(state)@, decoded@, x),
{
    if is_message_too_long(decoded) {
        return None;
    }
    Some(handle_session_key_exchange(state, decoded))
}

/// The `KeyRequest` message that asks the server for `recipient`'s public key,
/// encrypted under the session key; a failure gives `FctpError: ` and the `Debug`
/// text of the `FctpError`.
pub fn request_public_key(state: &ClientState, recipient: &str) -> (r: Result<Vec<u8>, String>)
    ensures
        ({
            let request = (FctpCode::KeyRequest, state@.id, recipient@, state@.server_id);
            &&& (r is Ok <==> encode_utf8(wire_text(request)).len() <= aes_gcm_max_plaintext())
            &&& (r matches Ok(p) ==> is_binary_encryption(p@, state@.session_key, encode_utf8(wire_text(request))))
            &&& (r matches Err(e) ==> e@ == "FctpError: EncryptionFailed(\"Error\")"@)
        }),
{
    let server_id = get_server_id(state);
    let id = get_id(state);
    let request = FctpMessage::new(FctpCode::KeyRequest, id.as_str(), recipient, server_id.as_str());
    match encapsulate_to_fctp(&request, &state.session_key) {
        Ok(p) => Ok(p),
        Err(_) => Err(string_from("FctpError: EncryptionFailed(\"Error\")")),
    }
}

/// How long the client waits for a recipient's public key, in milliseconds.
pub const KEY_REQUEST_TIMEOUT_MS: u64 = 10000;

/// How long the client waits for the user to check the server's fingerprint, in
/// milliseconds.
pub const HANDSHAKE_TIMEOUT_MS: u64 = 30000;

/// Where a wait stands after one check.
pub enum WaitStep {
    /// What was waited for has come.
    Done,
    /// Check again later.
    Waiting,
    /// The wait is over, with the error to give.
    TimedOut(String),
}

/// The request for the public key of a recipient whose key the table lacks: the
/// `KeyRequest` for the trimmed name (see `request_public_key`).
pub fn handle_non_existent_e2ee_key(state: &ClientState, recipient: &str) -> (r: Result<Vec<u8>, String>)
    ensures
        ({
            let request = (FctpCode::KeyRequest, state@.id, trim(recipient@), state@.server_id);
            &&& (r is Ok <==> encode_utf8(wire_text(request)).len() <= aes_gcm_max_plaintext())
            &&& (r matches Ok(p) ==> is_binary_encryption(p@, state@.session_key, encode_utf8(wire_text(request))))
            &&& (r matches Err(e) ==> e@ == "FctpError: EncryptionFailed(\"Error\")"@)
        }),
{
    let name = string_of(&trim_chars(&chars_of(recipient)));
    request_public_key(state, name.as_str())
}

/// One check of the wait for a recipient's key after a request: done once the
/// acknowledgement flag is up; after `KEY_REQUEST_TIMEOUT_MS`, `Timeout waiting for
/// recipient's public key`; otherwise waiting.
pub fn key_wait_step(state: &ClientState, elapsed_ms: u64) -> (w: WaitStep)
    ensures
        state@.last_ack ==> w is Done,
        !state@.last_ack && elapsed_ms > KEY_REQUEST_TIMEOUT_MS ==> (w matches WaitStep::TimedOut(e)
            && e@ == "Timeout waiting for recipient's public key"@),
        !state@.last_ack && elapsed_ms <= KEY_REQUEST_TIMEOUT_MS ==> w is Waiting,
{
    if state.last_ack {
        WaitStep::Done
    } else if elapsed_ms > KEY_REQUEST_TIMEOUT_MS {
        WaitStep::TimedOut(string_from("Timeout waiting for recipient's public key"))
    } else {
        WaitStep::Waiting
    }
}

/// One check of the wait for the user's fingerprint check: done once the user
/// confirmed it; after `HANDSHAKE_TIMEOUT_MS`, `Fingerprint verification timeout`;
/// otherwise waiting.
pub fn fingerprint_wait_step(fp_verified: bool, elapsed_ms: u64) -> (w: WaitStep)
    ensures
        fp_verified ==> w is Done,
        !fp_verified && elapsed_ms > HANDSHAKE_TIMEOUT_MS ==> (w matches WaitStep::TimedOut(e)
            && e@ == "Fingerprint verification timeout"@),
        !fp_verified && elapsed_ms <= HANDSHAKE_TIMEOUT_MS ==> w is Waiting,
{
    if fp_verified {
        WaitStep::Done
    } else if elapsed_ms > HANDSHAKE_TIMEOUT_MS {
        WaitStep::TimedOut(string_from("Fingerprint verification timeout"))
    } else {
        WaitStep::Waiting
    }
}

/// Takes the server's answer to a key request: the body, trimmed, is the Base64 of
/// the 32-byte public key of the selected recipient, which is recorded, and the
/// acknowledgement flag is raised. On a failure nothing changes.
pub fn handle_e2ee_key_request(state: &mut ClientState, msg: &FctpMessage) -> (r: Result<(), String>)
    ensures
        match base64_standard_decode(trim(msg.body@)) {
            Err(e) => r matches Err(t) && t@ == "Base64 decode failed: "@ + e && final(state)@ == old(state)@,
            Ok(k) => if k.len() != 32 {
                r matches Err(t) && t@ == "Invalid key length: expected 32, got "@ + nat_digits(k.len())
                    && final(state)@ == old(state)@
            } else {
                r is Ok && final(state)@ == (ClientView {
                    key_table: old(state)@.key_table.insert(old(state)@.current_recipient, k),
                    last_ack: true,
                    ..old(state)@
                })
            },
        },
{
    let body = string_of(&trim_chars(&chars_of(msg.body.as_str())));
    let key_bytes = match base64_decode(body.as_str()) {
        Ok(b) => b,
        Err(e) => return Err(text_join("Base64 decode failed: ", e.as_str())),
    };
    if key_bytes.len() != 32 {
        return Err(text_with_number("Invalid key length: expected 32, got ", key_bytes.len() as u64));
    }
    let recipient_key = key_array(key_bytes.as_slice());
    let recipient = get_current_recipient(state);
    insert_pk_in_e2ee_key_table(state, recipient.as_str(), recipient_key);
    state.last_ack = true;
    Ok(())
}

} // verus!
