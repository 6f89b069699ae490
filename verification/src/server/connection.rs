//! What the server does with each chunk that a connection receives: first the key
//! exchange that gives the connection its session key, then the messages that it
//! routes between clients and the commands it answers.

use vstd::prelude::*;
use vstd::string::StringSliceAdditionalSpecFns;
use vstd::utf8::{decode_utf8, encode_utf8, valid_utf8};

use crate::crypt::asymmetric::{is_message_too_long, message_too_long, law_asymmetric_roundtrip, decrypt, decrypt_result, encrypt, is_asymmetric_encryption};
use crate::crypt::primitives::{aead_tag_len, aes_gcm_max_plaintext, x25519_base};
use crate::crypt::symmetric::{KEYSTREAM_STOP, base64_clean, decrypt_text_result, decrypt_text_stops, keygen, string_from, text_nonce_stops};
use crate::crypt::utils::{is_base64_char, base64_decode, base64_encodable, base64_encode, base64_standard_decode, base64_standard_encode, string_from_utf8};
use crate::fctp_text::{lemma_parse_plain_no_newline, lemma_trim_no_newline, message_chars, message_core};
use crate::protocol_utils::fctp_secure::key_array;
use crate::protocol_utils::session::{is_zero_key, zero_key};
use crate::server::fctp::{law_server_roundtrip, command_handler, command_result, decapsulate_fctp_message, send_fctp_message, server_decapsulate, server_packet_ok};
use crate::server::fctp_client::{ClientInfo, ClientInfoView, Clients};
use crate::server::fctp_secure::CertState;
use crate::text::{is_ws, trim_end, trim_start, no_newline, chars_of, push_str_chars, string_of, trim, trim_chars};

verus! {

/// One client's connection: the identifier the server gave it, and the session key
/// it has agreed with the client (all zero until the key exchange).
pub struct ServerConnection {
    pub id: String,
    pub session_key: [u8; 32],
}

impl View for ServerConnection {
    type V = (Seq<char>, Seq<u8>);

    open spec fn view(&self) -> (Seq<char>, Seq<u8>) {
        (self.id@, self.session_key@)
    }
}

/// What the server does after a chunk.
pub enum ServerAction {
    /// Write the text to this connection.
    Reply(String),
    /// Send the packet to the connection of the client `to`.
    Forward { to: String, packet: String },
    /// Report the text on the error stream.
    Report(String),
    /// Nothing to send.
    Nothing,
    /// The connection's task stops: the chunk breaks an assumption of the server.
    Stop(String),
}

/// A `ServerAction` as a value.
pub enum ServerActionView {
    Reply(Seq<char>),
    Forward(Seq<char>, Seq<char>),
    Report(Seq<char>),
    Nothing,
    Stop(Seq<char>),
}

impl View for ServerAction {
    type V = ServerActionView;

    open spec fn view(&self) -> ServerActionView {
        match self {
            ServerAction::Reply(s) => ServerActionView::Reply(s@),
            ServerAction::Forward { to, packet } => ServerActionView::Forward(to@, packet@),
            ServerAction::Report(s) => ServerActionView::Report(s@),
            ServerAction::Nothing => ServerActionView::Nothing,
            ServerAction::Stop(s) => ServerActionView::Stop(s@),
        }
    }
}

/// Why a task stops when a packet is too long to be encoded.
pub const OVERFLOW_STOP: &'static str = "usize overflow when calculating buffer size";

/// Why a task stops when a nonce has the wrong length.
pub const NONCE_STOP: &'static str = "nonce of the wrong length";


/// Why a task stops when the exchange key is not 32 bytes long.
pub const EXCHANGE_KEY_STOP: &'static str = "Slice with incorrect length";

/// Registers a client that has just connected, under the identifier `id`, and
/// gives its connection, which has no session key yet. The registry keeps the record
/// made now: the session key that the key exchange agrees later belongs to the
/// connection, and what the server writes to a client goes under the registry's key.
pub fn accept_client(clients: &mut Clients, id: &str) -> (conn: ServerConnection)
    ensures
        conn@ == (id@, zero_key()),
        final(clients)@ == old(clients)@.insert(id@, ClientInfo::new_view()),
{
    clients.insert(id, ClientInfo::new());
    let conn = ServerConnection { id: String::from_str(id), session_key: [0u8; 32] };
    assert(conn.session_key@ =~= zero_key());
    conn
}

/// Forgets a client whose connection closed.
pub fn disconnect_client(clients: &mut Clients, id: &str)
    ensures
        final(clients)@ == old(clients)@.remove(id@),
{
    let _ = clients.remove(id);
}

/// The text followed by CR LF CR LF.
pub open spec fn with_blank_line(text: Seq<char>) -> Seq<char> {
    text + seq!['\r', '\n', '\r', '\n']
}

/// A text of Base64 characters followed by CR LF CR LF trims back to the text.
pub proof fn lemma_trim_blank_line(s: Seq<char>)
    requires
        forall|k: int| 0 <= k < s.len() ==> is_base64_char(#[trigger] s[k]),
    ensures
        trim(with_blank_line(s)) == s,
{
    let w = with_blank_line(s);
    assert forall|k: int| 0 <= k < s.len() implies !is_ws(#[trigger] s[k]) by {
        assert(is_base64_char(s[k]));
    }
    if s.len() > 0 {
        assert(w[0] == s[0]);
        assert(trim_start(w) == w);
    } else {
        assert(w =~= seq!['\r', '\n', '\r', '\n']);
        let a1 = w.drop_first();
        let a2 = a1.drop_first();
        let a3 = a2.drop_first();
        assert(a3 =~= seq!['\n']);
        assert(is_ws(a3[0]));
        assert(a3.drop_first() =~= Seq::<char>::empty());
        assert(trim_start(a3.drop_first()) == Seq::<char>::empty());
        assert(a3.len() > 0 && is_ws(a3[0]));
        assert(trim_start(a3) == trim_start(a3.drop_first()));
        assert(is_ws(a2[0]));
        assert(trim_start(a2) == Seq::<char>::empty());
        assert(is_ws(a1[0]));
        assert(trim_start(a1) == Seq::<char>::empty());
        assert(is_ws(w[0]));
        assert(trim_start(w) == Seq::<char>::empty());
        assert(trim_end(Seq::<char>::empty()) == Seq::<char>::empty());
        return;
    }
    let w1 = w.drop_last();
    let w2 = w1.drop_last();
    let w3 = w2.drop_last();
    let w4 = w3.drop_last();
    assert(w4 =~= s);
    assert(trim_end(s) == s);
    assert(trim_end(w3) == trim_end(w4));
    assert(trim_end(w2) == trim_end(w3));
    assert(trim_end(w1) == trim_end(w2));
    assert(trim_end(w) == trim_end(w1));
}

/// The first thing the server writes to a connection without a session key: the
/// Base64 of its certificate's public key, then CR LF CR LF.
pub fn greeting(conn: &ServerConnection, cert: &CertState) -> (r: Option<String>)
    ensures
        conn@.1 == zero_key() ==> (r matches Some(t) && t@ == with_blank_line(base64_standard_encode(cert@.0))),
        conn@.1 != zero_key() ==> r is None,
{
    if !is_zero_key(&conn.session_key) {
        return None;
    }
    let encoded = base64_encode(cert.cert_pub.as_slice());
    let mut v = chars_of(encoded.as_str());
    push_str_chars(&mut v, "\r\n\r\n");
    proof {
        reveal_strlit("\r\n\r\n");
    }
    Some(string_of(&v))
}

/// Whether `action` answers, in the key exchange, the text `msg`: its trimmed text
/// must be the Base64 of the client's key-exchange public key encrypted to the
/// certificate; the connection then takes a fresh session key, and the reply is the
/// Base64 of that key encrypted to the client's key-exchange key. A decoding or
/// decryption failure is reported and changes nothing; a decrypted key of another
/// length than 32 bytes stops the task, and so does a message long enough to run
/// XChaCha20's counter out (decrypting it would stop the task if it authenticated,
/// which cannot be known before).
pub open spec fn handshake_ok(old: (Seq<char>, Seq<u8>), new: (Seq<char>, Seq<u8>), cert_sec: Seq<u8>, msg: Seq<char>, action: ServerActionView) -> bool {
    match base64_standard_decode(trim(msg)) {
        Err(e) => new == old && action == ServerActionView::Report("Decoding error: "@ + e),
        Ok(decoded) => if message_too_long(decoded) {
            new == old && action == ServerActionView::Stop(KEYSTREAM_STOP@)
        } else { match decrypt_result(cert_sec, decoded) {
            Err(e) => new == old && action == ServerActionView::Report("Decryption error: "@ + e),
            Ok(exchange_pub) => if exchange_pub.len() != 32 {
                new == old && action == ServerActionView::Stop(EXCHANGE_KEY_STOP@)
            } else {
                &&& new.0 == old.0
                &&& new.1.len() == 32
                &&& exists|m: Seq<u8>| is_asymmetric_encryption(m, exchange_pub, new.1) && base64_clean(m)
                    && action == ServerActionView::Reply(with_blank_line(#[trigger] base64_standard_encode(m)))
            },
        } },
    }
}

/// Takes part in the key exchange with the text `msg` (see `handshake_ok`).
pub fn handshake_step(conn: &mut ServerConnection, cert: &CertState, msg: &str) -> (a: ServerAction)
    ensures
        handshake_ok(old(conn)@, final(conn)@, cert@.1, msg@, a@),
{
    let text = string_of(&trim_chars(&chars_of(msg)));
    let decoded = match base64_decode(text.as_str()) {
        Ok(d) => d,
        Err(e) => {
            let mut v = chars_of("Decoding error: ");
            push_str_chars(&mut v, e.as_str());
            return ServerAction::Report(string_of(&v));
        },
    };
    if is_message_too_long(decoded.as_slice()) {
        return ServerAction::Stop(string_from(KEYSTREAM_STOP));
    }
    let exchange_pub = match decrypt(&cert.cert_sec, decoded.as_slice()) {
        Ok(d) => d,
        Err(e) => {
            let mut v = chars_of("Decryption error: ");
            push_str_chars(&mut v, e.as_str());
            return ServerAction::Report(string_of(&v));
        },
    };
    if exchange_pub.len() != 32 {
        return ServerAction::Stop(string_from(EXCHANGE_KEY_STOP));
    }
    let exchange_pub = key_array(exchange_pub.as_slice());
    conn.session_key = keygen();
    match encrypt(&exchange_pub, conn.session_key.as_slice()) {
        Ok(encrypted) => {
            let encoded = base64_encode(encrypted.as_slice());
            let mut v = chars_of(encoded.as_str());
            push_str_chars(&mut v, "\r\n\r\n");
            proof {
                reveal_strlit("\r\n\r\n");
                assert(v@ =~= with_blank_line(base64_standard_encode(encrypted@)));
                assert(is_asymmetric_encryption(encrypted@, exchange_pub@, conn.session_key@));
                assert(base64_clean(encrypted@));
            }
            ServerAction::Reply(string_of(&v))
        },
        Err(e) => {
            assert(false);
            ServerAction::Report(e)
        },
    }
}

/// Whether a message can be encrypted and encoded without overflowing the sizes.
pub open spec fn packet_fits(text: Seq<char>) -> bool {
    base64_encodable(encode_utf8(text).len() + aead_tag_len())
}

/// Whether `action` sends the message of `code`, `from`, `body`, `to` to the client
/// `client`, under the key the server keeps for it: nothing when the client is not
/// connected; a stop when the message is too long to encode.
pub open spec fn send_ok(clients: Map<Seq<char>, ClientInfoView>, client: Seq<char>, code: i32, from: Seq<char>, body: Seq<char>, to: Seq<char>, action: ServerActionView) -> bool {
    if !clients.contains_key(client) {
        action == ServerActionView::Nothing
    } else if !packet_fits(message_core(code, from, body, to)) {
        action == ServerActionView::Stop(OVERFLOW_STOP@)
    } else {
        action matches ServerActionView::Forward(c, p) && c == client && server_packet_ok(
            p,
            message_core(code, from, body, to),
            clients[client].conn_session_key,
        )
    }
}

/// Whether the message of `code`, `from`, `body`, `to` can be encoded (see
/// `packet_fits`).
fn fits(code: i32, from: &str, body: &str, to: &str) -> (r: bool)
    ensures
        r == packet_fits(message_core(code, from@, body@, to@)),
{
    let text = string_of(&message_chars(code, from, body, to, false));
    let len = text.as_str().as_bytes().len();
    len <= (usize::MAX / 4) * 3 - 16
}

/// Sends a message to the client `client` (see `send_ok`).
fn send_to(clients: &Clients, client: &str, code: i32, from: &str, body: &str, to: &str) -> (a: ServerAction)
    ensures
        send_ok(clients@, client@, code, from@, body@, to@, a@),
{
    match clients.get(client) {
        None => ServerAction::Nothing,
        Some(info) => {
            if !fits(code, from, body, to) {
                return ServerAction::Stop(string_from(OVERFLOW_STOP));
            }
            let packet = send_fctp_message(info, code, from, body, to);
            ServerAction::Forward { to: String::from_str(client), packet }
        },
    }
}

/// Whether the registry after a message, and `action`, are what the server does with
/// the text `msg` on a connection with a session key: a message (200) goes to its
/// recipient, or `Not found` back to the sender; a ping (10) gets a pong (11); a
/// command (201) is answered (see `command_result`); another code gets `Unsupported
/// header code, error!` (405); a text that does not decrypt and parse gets
/// `Malformed header, error!` (505). A nonce of the wrong length stops the task.
pub open spec fn route_ok(
    conn: (Seq<char>, Seq<u8>),
    old: Map<Seq<char>, ClientInfoView>,
    new: Map<Seq<char>, ClientInfoView>,
    server_id: Seq<char>,
    connected_secs: nat,
    msg: Seq<char>,
    action: ServerActionView,
) -> bool {
    let id = conn.0;
    if decrypt_text_stops(msg) {
        new == old && action == ServerActionView::Stop(NONCE_STOP@)
    } else {
        match server_decapsulate(msg, conn.1) {
            None => new == old && send_ok(old, id, 505, server_id, "Malformed header, error!"@, id, action),
            Some((code, from, body, to)) => if code == 200 {
                let to_id = trim(to);
                &&& new == old
                &&& if old.contains_key(to_id) {
                    send_ok(old, to_id, 200, id, trim(body), to_id, action)
                } else {
                    send_ok(old, id, 405, server_id, "Not found"@, id, action)
                }
            } else if code == 10 {
                new == old && send_ok(old, id, 11, server_id, "pong"@, id, action)
            } else if code == 201 {
                if old.contains_key(id) {
                    let (info, c, answer) = command_result(body, id, old[id], old, server_id, connected_secs);
                    new == old.insert(id, info) && send_ok(new, id, c, server_id, answer, id, action)
                } else {
                    new == old && action == ServerActionView::Nothing
                }
            } else {
                new == old && send_ok(old, id, 405, server_id, "Unsupported header code, error!"@, id, action)
            },
        }
    }
}

/// Handles the text `msg` on a connection with a session key (see `route_ok`).
pub fn route_message(
    conn: &ServerConnection,
    clients: &mut Clients,
    server_id: &str,
    connected_secs: u64,
    msg: &str,
) -> (a: ServerAction)
    ensures
        route_ok(conn@, old(clients)@, final(clients)@, server_id@, connected_secs as nat, msg@, a@),
{
    let id = conn.id.as_str();
    if text_nonce_stops(msg) {
        return ServerAction::Stop(string_from(NONCE_STOP));
    }
    let message = match decapsulate_fctp_message(msg, conn.session_key) {
        Some(m) => m,
        None => {
            return send_to(clients, id, 505, server_id, "Malformed header, error!", id);
        },
    };
    if message.code == 200 {
        let to_id = string_of(&trim_chars(&chars_of(message.to.as_str())));
        let body = string_of(&trim_chars(&chars_of(message.body.as_str())));
        if clients.get(to_id.as_str()).is_some() {
            send_to(clients, to_id.as_str(), 200, id, body.as_str(), to_id.as_str())
        } else {
            send_to(clients, id, 405, server_id, "Not found", id)
        }
    } else if message.code == 10 {
        send_to(clients, id, 11, server_id, "pong", id)
    } else if message.code == 201 {
        let mut info = match clients.get(id) {
            Some(i) => i.copy(),
            None => {
                return ServerAction::Nothing;
            },
        };
        let (code, answer) = command_handler(&message, id, &mut info, clients, server_id, connected_secs);
        clients.insert(id, info);
        send_to(clients, id, code, server_id, answer.as_str(), id)
    } else {
        send_to(clients, id, 405, server_id, "Unsupported header code, error!", id)
    }
}

/// What the server does with a chunk that a connection received: a chunk that is
/// not UTF-8 is ignored; before the session key, the key exchange; afterwards, the
/// message.
pub open spec fn chunk_ok(
    old_conn: (Seq<char>, Seq<u8>),
    new_conn: (Seq<char>, Seq<u8>),
    old: Map<Seq<char>, ClientInfoView>,
    new: Map<Seq<char>, ClientInfoView>,
    cert: (Seq<u8>, Seq<u8>),
    server_id: Seq<char>,
    connected_secs: nat,
    chunk: Seq<u8>,
    action: ServerActionView,
) -> bool {
    if !valid_utf8(chunk) {
        new_conn == old_conn && new == old && action == ServerActionView::Nothing
    } else if old_conn.1 == zero_key() {
        new == old && handshake_ok(old_conn, new_conn, cert.1, decode_utf8(chunk), action)
    } else {
        new_conn == old_conn && route_ok(old_conn, old, new, server_id, connected_secs, decode_utf8(chunk), action)
    }
}

/// Handles a chunk that a connection received (see `chunk_ok`).
pub fn handle_chunk(
    conn: &mut ServerConnection,
    clients: &mut Clients,
    cert: &CertState,
    server_id: &str,
    connected_secs: u64,
    chunk: &[u8],
) -> (a: ServerAction)
    ensures
        chunk_ok(old(conn)@, final(conn)@, old(clients)@, final(clients)@, cert@, server_id@, connected_secs as nat, chunk@, a@),
{
    let msg = match string_from_utf8(vstd::slice::slice_to_vec(chunk)) {
        Ok(m) => m,
        Err(_) => {
            return ServerAction::Nothing;
        },
    };
    if is_zero_key(&conn.session_key) {
        handshake_step(conn, cert, msg.as_str())
    } else {
        route_message(conn, clients, server_id, connected_secs, msg.as_str())
    }
}

/// A message that the server forwards reaches its recipient as sent: decrypting the
/// packet, without its closing CR LF CR LF, under the key the server keeps for the
/// recipient gives code 200, the sender's identifier, the body and the recipient's
/// identifier (trimmed as the server trims them), when the recipient is connected,
/// the sender's identifier holds no line feed and the message is short enough for
/// AES-256-GCM to encrypt (a longer one gives no packet).
pub proof fn law_forward_reads_back(
    conn: (Seq<char>, Seq<u8>),
    old: Map<Seq<char>, ClientInfoView>,
    new: Map<Seq<char>, ClientInfoView>,
    server_id: Seq<char>,
    connected_secs: nat,
    msg: Seq<char>,
    to: Seq<char>,
    packet: Seq<char>,
)
    requires
        route_ok(conn, old, new, server_id, connected_secs, msg, ServerActionView::Forward(to, packet)),
        server_decapsulate(msg, conn.1) matches Some((code, _, _, _)) && code == 200,
        no_newline(conn.0),
        ({
            let (_, _, body, t) = server_decapsulate(msg, conn.1)->Some_0;
            &&& old.contains_key(trim(t))
            &&& encode_utf8(message_core(200, conn.0, trim(body), trim(t))).len() <= aes_gcm_max_plaintext()
        }),
    ensures
        ({
            let (_, _, body, t) = server_decapsulate(msg, conn.1)->Some_0;
            &&& to == trim(t)
            &&& server_decapsulate(packet.take(packet.len() - 4), new[to].conn_session_key)
                == Some((200i32, trim(conn.0), trim(trim(body)), trim(trim(t))))
        }),
{
    let (_, _, body, t) = server_decapsulate(msg, conn.1)->Some_0;
    let text = decrypt_text_result(msg, conn.1)->Ok_0;
    lemma_parse_plain_no_newline(text);
    lemma_trim_no_newline(body);
    lemma_trim_no_newline(t);
    let to_id = trim(t);
    law_server_roundtrip(packet, old[to_id].conn_session_key, 200, conn.0, trim(body), to_id);
}

/// A command gets its own answer: when a registered client sends a `Command`
/// message, the one packet the server sends goes back to that client and, without
/// its closing CR LF CR LF, decrypts under the key the server keeps for it to the
/// code and text that the command gives (405 for a refused nickname, 201 only for a
/// command that was carried out), from the server's identifier; the client's record
/// becomes the one the command leaves. This holds when the identifiers and the
/// answer hold no line feed and the answer is short enough for AES-256-GCM to
/// encrypt (a longer one gives no packet).
pub proof fn law_command_answer_reads_back(
    conn: (Seq<char>, Seq<u8>),
    old: Map<Seq<char>, ClientInfoView>,
    new: Map<Seq<char>, ClientInfoView>,
    server_id: Seq<char>,
    connected_secs: nat,
    msg: Seq<char>,
    to: Seq<char>,
    packet: Seq<char>,
)
    requires
        route_ok(conn, old, new, server_id, connected_secs, msg, ServerActionView::Forward(to, packet)),
        server_decapsulate(msg, conn.1) matches Some((code, _, _, _)) && code == 201,
        old.contains_key(conn.0),
        no_newline(conn.0),
        no_newline(server_id),
        ({
            let body = server_decapsulate(msg, conn.1)->Some_0.2;
            let (_, c, answer) = command_result(body, conn.0, old[conn.0], old, server_id, connected_secs);
            &&& no_newline(answer)
            &&& encode_utf8(message_core(c, server_id, answer, conn.0)).len() <= aes_gcm_max_plaintext()
        }),
    ensures
        ({
            let body = server_decapsulate(msg, conn.1)->Some_0.2;
            let (info, c, answer) = command_result(body, conn.0, old[conn.0], old, server_id, connected_secs);
            &&& to == conn.0
            &&& new == old.insert(conn.0, info)
            &&& server_decapsulate(packet.take(packet.len() - 4), new[conn.0].conn_session_key)
                == Some((c, trim(server_id), trim(answer), trim(conn.0)))
        }),
{
    let body = server_decapsulate(msg, conn.1)->Some_0.2;
    let (info, c, answer) = command_result(body, conn.0, old[conn.0], old, server_id, connected_secs);
    let new_map = old.insert(conn.0, info);
    assert(new_map.contains_key(conn.0));
    law_server_roundtrip(packet, new_map[conn.0].conn_session_key, c, server_id, answer, conn.0);
}

/// The server's reply in the key exchange opens, for the client whose key-exchange
/// public key the server received, to the session key that the server keeps: its
/// trimmed text is Base64 that decodes to a message that the client's key-exchange
/// secret decrypts to that 32-byte key.
pub proof fn law_session_key_reply_opens(
    old_conn: (Seq<char>, Seq<u8>),
    new_conn: (Seq<char>, Seq<u8>),
    cert_sec: Seq<u8>,
    msg: Seq<char>,
    reply: Seq<char>,
    client_sec: Seq<u8>,
)
    requires
        handshake_ok(old_conn, new_conn, cert_sec, msg, ServerActionView::Reply(reply)),
        base64_standard_decode(trim(msg)) matches Ok(d) && decrypt_result(cert_sec, d) == Ok::<Seq<u8>, Seq<char>>(
            x25519_base(client_sec),
        ),
        client_sec.len() == 32,
    ensures
        new_conn.1.len() == 32,
        base64_standard_decode(trim(reply)) is Ok,
        decrypt_result(client_sec, base64_standard_decode(trim(reply))->Ok_0) == Ok::<Seq<u8>, Seq<char>>(new_conn.1),
        !message_too_long(base64_standard_decode(trim(reply))->Ok_0),
{
    let client_pub = x25519_base(client_sec);
    let m = choose|m: Seq<u8>| is_asymmetric_encryption(m, client_pub, new_conn.1) && base64_clean(m)
        && ServerActionView::Reply(reply) == ServerActionView::Reply(with_blank_line(#[trigger] base64_standard_encode(m)));
    assert(reply == with_blank_line(base64_standard_encode(m)));
    lemma_trim_blank_line(base64_standard_encode(m));
    law_asymmetric_roundtrip(client_sec, m, new_conn.1);
}

} // verus!
