//! What the simple graphical client does with the lines it reads from the server
//! and with what the user types.

use vstd::prelude::*;
use vstd::utf8::encode_utf8;

use crate::cli_client::input::{parse_input, parse_input_result};
use crate::crypt::asymmetric::{is_message_too_long, message_too_long, decrypt, decrypt_result, encrypt, generate_keypair, is_asymmetric_encryption};
use crate::crypt::primitives::x25519_base;
use crate::crypt::utils::{base64_decode, base64_encode, base64_standard_decode, base64_standard_encode};
use crate::fctp_text::message_text;
use crate::gui_client::fctp::{encapsulate_to_fctp, gui_packet_ok, gui_stream_step, process_fctp_stream, GuiAction, GuiActionView};
use crate::protocol_utils::connection::{command_chars, command_of};
use crate::protocol_utils::fctp_secure::{key_array, set_exchange, set_session_key};
use crate::protocol_utils::session::{is_zero_key, zero_key, ClientState, ClientView};
use crate::cli_client::fctp::is_blank;
use crate::crypt::symmetric::KEYSTREAM_STOP;
use crate::server::connection::{handshake_ok, law_session_key_reply_opens, ServerActionView};
use crate::text::{chars_of, push_chars, push_str_chars, string_of, trim, trim_chars};


verus! {

/// `m` without the line feeds and carriage returns at its end.
pub open spec fn strip_line_ends(m: Seq<char>) -> Seq<char>
    decreases m.len(),
{
    if m.len() > 0 && (m.last() == '\n' || m.last() == '\r') {
        strip_line_ends(m.drop_last())
    } else {
        m
    }
}

/// CR LF CR LF.
pub open spec fn blank_end() -> Seq<char> {
    seq!['\r', '\n', '\r', '\n']
}

/// One line read from the server, with the text being glued: unless the text ends
/// with CR LF CR LF, its trailing line ends are replaced by CR LF CR LF; then a blank
/// line hands that text over and empties it, and any other line replaces it with
/// the line and a line feed. Gives the glued text and the text handed over.
pub open spec fn gui_glue_step(message: Seq<char>, line: Seq<char>) -> (Seq<char>, Option<Seq<char>>) {
    let m = if message.len() >= 4 && message.skip(message.len() - 4) == blank_end() {
        message
    } else {
        strip_line_ends(message) + blank_end()
    };
    if is_blank(line) && m.len() > 0 {
        (Seq::empty(), Some(m))
    } else {
        (line + seq!['\n'], None)
    }
}

/// The view of an optional `String`.
pub open spec fn opt_view(r: Option<String>) -> Option<Seq<char>> {
    match r {
        Some(s) => Some(s@),
        None => None,
    }
}

/// Whether `v` ends with CR LF CR LF.
fn ends_with_blank(v: &Vec<char>) -> (b: bool)
    ensures
        b == (v@.len() >= 4 && v@.skip(v@.len() - 4) == blank_end()),
{
    let n = v.len();
    if n < 4 {
        return false;
    }
    let b = v[n - 4] == '\r' && v[n - 3] == '\n' && v[n - 2] == '\r' && v[n - 1] == '\n';
    proof {
        if b {
            assert(v@.skip(n - 4) =~= blank_end());
        } else if v@.skip(n - 4) == blank_end() {
            assert(v@.skip(n - 4)[0] == v@[n - 4]);
            assert(v@.skip(n - 4)[1] == v@[n - 3]);
            assert(v@.skip(n - 4)[2] == v@[n - 2]);
            assert(v@.skip(n - 4)[3] == v@[n - 1]);
        }
    }
    b
}

/// Adds a line read from the server to the text being glued (see `gui_glue_step`).
pub fn gui_glue_line(message: &mut String, line: &str) -> (r: Option<String>)
    ensures
        (final(message)@, opt_view(r)) == gui_glue_step(old(message)@, line@),
{
    let mut m = chars_of(message.as_str());
    if !ends_with_blank(&m) {
        while m.len() > 0 && (m[m.len() - 1] == '\n' || m[m.len() - 1] == '\r')
            invariant
                strip_line_ends(m@) == strip_line_ends(old(message)@),
            decreases m.len(),
        {
            m.pop();
        }
        push_str_chars(&mut m, "\r\n\r\n");
        proof {
            reveal_strlit("\r\n\r\n");
        }
    }
    let t = trim_chars(&chars_of(line));
    if t.len() == 0 && m.len() > 0 {
        *message = String::new();
        Some(string_of(&m))
    } else {
        let mut v = chars_of(line);
        push_str_chars(&mut v, "\n");
        proof {
            reveal_strlit("\n");
        }
        *message = string_of(&v);
        None
    }
}

/// What the client does with a text handed over by the gluing.
pub enum GuiStreamOutcome {
    /// Send the bytes to the server.
    Send(Vec<u8>),
    /// Report the text on the error stream.
    Report(String),
    /// What the message gives in the conversation.
    Gui(GuiAction),
}

/// A `GuiStreamOutcome` as a value.
pub enum GuiStreamOutcomeView {
    Send(Seq<u8>),
    Report(Seq<char>),
    Gui(GuiActionView),
}

impl View for GuiStreamOutcome {
    type V = GuiStreamOutcomeView;

    open spec fn view(&self) -> GuiStreamOutcomeView {
        match self {
            GuiStreamOutcome::Send(b) => GuiStreamOutcomeView::Send(b@),
            GuiStreamOutcome::Report(s) => GuiStreamOutcomeView::Report(s@),
            GuiStreamOutcome::Gui(a) => GuiStreamOutcomeView::Gui(a@),
        }
    }
}

/// Whether the session afterwards, and `outcome`, are what the client does with a
/// handed-over text. Without a session key, the trimmed text is Base64: first the
/// server's 32-byte certificate key, answered with a fresh key-exchange pair whose
/// public half goes to the server encrypted to the certificate key; then the session
/// key encrypted to the key-exchange key, which must be 32 bytes, and is answered
/// with the message that asks for the identifiers (code 900, body `id`). A session-key
/// message long enough to run XChaCha20's counter out stops the client (decryption
/// would panic if the tag authenticated, which cannot be known before). With a session key, the text is a message (see `gui_stream_step`).
pub open spec fn gui_text_ok(old: ClientView, new: ClientView, message: Seq<char>, outcome: GuiStreamOutcomeView) -> bool {
    if old.session_key == zero_key() {
        match base64_standard_decode(trim(message)) {
            Err(e) => new == old && outcome == (if old.exchange_pub == zero_key() {
                GuiStreamOutcomeView::Report("Decoding error: "@ + e)
            } else {
                GuiStreamOutcomeView::Report("Session key decoding error  "@ + e + " / "@ + trim(message))
            }),
            Ok(decoded) => if old.exchange_pub == zero_key() {
                if decoded.len() != 32 {
                    new == old && outcome == GuiStreamOutcomeView::Report("Error: Key must be 32 bytes long"@)
                } else {
                    &&& new == (ClientView { exchange_pub: new.exchange_pub, exchange_sec: new.exchange_sec, ..old })
                    &&& new.exchange_pub == x25519_base(new.exchange_sec)
                    &&& exists|m: Seq<u8>| is_asymmetric_encryption(m, decoded, new.exchange_pub)
                        && outcome == GuiStreamOutcomeView::Send(encode_utf8(#[trigger] base64_standard_encode(m)))
                }
            } else if message_too_long(decoded) {
                new == old && outcome == GuiStreamOutcomeView::Gui(GuiActionView::Stop(KEYSTREAM_STOP@))
            } else {
                match decrypt_result(old.exchange_sec, decoded) {
                    Err(_) => new == old && outcome == GuiStreamOutcomeView::Report("Decryption error"@),
                    Ok(key) => if key.len() != 32 {
                        new == old && outcome == GuiStreamOutcomeView::Report("Session key must be exactly 32 bytes"@)
                    } else {
                        &&& new == (ClientView { session_key: key, ..old })
                        &&& outcome matches GuiStreamOutcomeView::Send(p)
                        &&& gui_packet_ok(p, message_text(900, old.id, "id"@, old.server_id), key)
                    },
                }
            },
        }
    } else {
        let (s, a) = gui_stream_step(old, encode_utf8(message));
        new == s && outcome == GuiStreamOutcomeView::Gui(a)
    }
}

/// The bytes of a `String`.
fn bytes_of(s: &String) -> (out: Vec<u8>)
    ensures
        out@ == encode_utf8(s@),
{
    vstd::slice::slice_to_vec(s.as_str().as_bytes())
}

/// Handles a text handed over by the gluing (see `gui_text_ok`).
pub fn gui_handle_text(state: &mut ClientState, message: &str) -> (outcome: GuiStreamOutcome)
    ensures
        gui_text_ok(old(state)@, final(state)@, message@, outcome@),
{
    if !is_zero_key(&state.session_key) {
        let bytes = bytes_of(&String::from_str(message));
        return GuiStreamOutcome::Gui(process_fctp_stream(state, bytes.as_slice()));
    }
    let trimmed = string_of(&trim_chars(&chars_of(message)));
    let decoded = match base64_decode(trimmed.as_str()) {
        Ok(d) => d,
        Err(e) => {
            if is_zero_key(&state.exchange_pub) {
                let mut v = chars_of("Decoding error: ");
                push_str_chars(&mut v, e.as_str());
                return GuiStreamOutcome::Report(string_of(&v));
            } else {
                let mut v = chars_of("Session key decoding error  ");
                push_str_chars(&mut v, e.as_str());
                push_str_chars(&mut v, " / ");
                push_str_chars(&mut v, trimmed.as_str());
                return GuiStreamOutcome::Report(string_of(&v));
            }
        },
    };
    if is_zero_key(&state.exchange_pub) {
        if decoded.len() != 32 {
            return GuiStreamOutcome::Report(String::from_str("Error: Key must be 32 bytes long"));
        }
        let cert_pub = key_array(decoded.as_slice());
        let (rec_sec, rec_pub) = generate_keypair();
        set_exchange(state, rec_pub, rec_sec);
        match encrypt(&cert_pub, rec_pub.as_slice()) {
            Ok(encrypted) => {
                let encoded = base64_encode(encrypted.as_slice());
                let packet = bytes_of(&encoded);
                assert(is_asymmetric_encryption(encrypted@, decoded@, state@.exchange_pub));
                GuiStreamOutcome::Send(packet)
            },
            Err(e) => {
                assert(false);
                GuiStreamOutcome::Report(e)
            },
        }
    } else {
        if is_message_too_long(decoded.as_slice()) {
            return GuiStreamOutcome::Gui(GuiAction::Stop(String::from_str(KEYSTREAM_STOP)));
        }
        match decrypt(&state.exchange_sec, decoded.as_slice()) {
            Err(_) => GuiStreamOutcome::Report(String::from_str("Decryption error")),
            Ok(key) => {
                if key.len() != 32 {
                    return GuiStreamOutcome::Report(String::from_str("Session key must be exactly 32 bytes"));
                }
                let session_key = key_array(key.as_slice());
                set_session_key(state, session_key);
                let packet = encapsulate_to_fctp(900, state.id.as_str(), "id", state.server_id.as_str(), state.session_key);
                GuiStreamOutcome::Send(packet)
            },
        }
    }
}

/// What a line that the user typed becomes: a line starting with `/` is a command
/// to the server (code 201, the text after the slashes, trimmed); any other is
/// `recipient:message` (code 200, both parts trimmed); each is written under the
/// session key (see `gui_packet_ok`). A line that is neither gives the text to
/// show, `Parse error ` and the error.
pub open spec fn gui_input_ok(state: ClientView, line: Seq<char>, r: Result<Seq<u8>, Seq<char>>) -> bool {
    if line.len() > 0 && line[0] == '/' {
        r matches Ok(p) && gui_packet_ok(p, message_text(201, state.id, command_of(line), state.server_id), state.session_key)
    } else {
        match parse_input_result(line) {
            Ok((to, body)) => r matches Ok(p) && gui_packet_ok(
                p,
                message_text(200, state.id, trim(body), trim(to)),
                state.session_key,
            ),
            Err(e) => r == Err::<Seq<u8>, Seq<char>>("Parse error "@ + e),
        }
    }
}

/// The view of a packet or an error text.
pub open spec fn packet_result_view(r: Result<Vec<u8>, String>) -> Result<Seq<u8>, Seq<char>> {
    match r {
        Ok(p) => Ok(p@),
        Err(e) => Err(e@),
    }
}

/// Turns a line that the user typed into the packet to send (see `gui_input_ok`).
pub fn send_message(state: &ClientState, line: &str) -> (r: Result<Vec<u8>, String>)
    ensures
        gui_input_ok(state@, line@, packet_result_view(r)),
{
    let v = chars_of(line);
    if v.len() > 0 && v[0] == '/' {
        let command = string_of(&command_chars(line));
        return Ok(encapsulate_to_fctp(201, state.id.as_str(), command.as_str(), state.server_id.as_str(), state.session_key));
    }
    match parse_input(line) {
        Ok((to, body)) => {
            let body = string_of(&trim_chars(&chars_of(body.as_str())));
            let to = string_of(&trim_chars(&chars_of(to.as_str())));
            Ok(encapsulate_to_fctp(200, state.id.as_str(), body.as_str(), to.as_str(), state.session_key))
        },
        Err(e) => {
            let mut out = chars_of("Parse error ");
            push_str_chars(&mut out, e);
            Err(string_of(&out))
        },
    }
}

/// The key exchange agrees on one session key: when the server received this
/// client's key-exchange public key and replied, the client, reading that reply with
/// its key-exchange secret, takes as its session key the key that the server keeps
/// for the connection.
pub proof fn law_session_key_agreement(
    old_conn: (Seq<char>, Seq<u8>),
    new_conn: (Seq<char>, Seq<u8>),
    cert_sec: Seq<u8>,
    msg: Seq<char>,
    reply: Seq<char>,
    client: ClientView,
    client_after: ClientView,
    outcome: GuiStreamOutcomeView,
)
    requires
        handshake_ok(old_conn, new_conn, cert_sec, msg, ServerActionView::Reply(reply)),
        base64_standard_decode(trim(msg)) matches Ok(d) && decrypt_result(cert_sec, d) == Ok::<Seq<u8>, Seq<char>>(client.exchange_pub),
        client.session_key == zero_key(),
        client.exchange_pub != zero_key(),
        client.exchange_sec.len() == 32,
        client.exchange_pub == x25519_base(client.exchange_sec),
        gui_text_ok(client, client_after, reply, outcome),
    ensures
        client_after.session_key == new_conn.1,
{
    law_session_key_reply_opens(old_conn, new_conn, cert_sec, msg, reply, client.exchange_sec);
}

} // verus!
