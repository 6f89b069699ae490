//! The protocol's messages as the simple graphical client speaks them: numeric
//! codes, plain text before the session key is set, binary frames afterwards.

use vstd::prelude::*;
use vstd::string::StringSliceAdditionalSpecFns;
use vstd::utf8::{decode_utf8, encode_utf8, valid_utf8};

use crate::crypt::primitives::{aead_tag_len, aes_gcm_max_plaintext};
use crate::crypt::symmetric::{decrypt_binary, decrypt_binary_result, encrypt_binary, is_binary_encryption, law_binary_roundtrip, string_from};
use crate::crypt::utils::string_from_utf8;
use crate::fctp_text::{lemma_next_line_append, lemma_parse_message_text, message_chars, message_option_view, message_text, parse_plain, parse_plain_message};
use crate::protocol_utils::fctp::{malformed_preview, malformed_preview_result};
use crate::protocol_utils::fctp_me::set_id;
use crate::protocol_utils::session::{is_zero_key, zero_key, ClientState, ClientView};
use crate::text::{next_line, chars_of, dec_i32, dec_i32_chars, no_newline, push_chars, push_str_chars, string_of, trim};

pub use crate::fctp_text::FctpMessage;
pub use crate::protocol_utils::fctp::{get_server_id, set_server_id};

verus! {

/// Parses a message text (see `parse_plain`).
pub fn parse_fctp_message(message: &str) -> (r: Option<FctpMessage>)
    ensures
        message_option_view(r) == parse_plain(message@),
{
    parse_plain_message(message)
}

/// Text after a complete message does not change what this client's parser reads:
/// once the five lines of a message that parses have been read up to a line feed,
/// whatever follows is never looked at.
pub proof fn law_plain_parse_ignores_trailing_text(s: Seq<char>, t: Seq<char>)
    requires
        parse_plain(s) is Some,
        s.len() > 0,
        s.last() == '\n',
    ensures
        parse_plain(s + t) == parse_plain(s),
{
    lemma_next_line_append(s, t);
    let r1 = next_line(s)->Some_0.1;
    lemma_next_line_append(r1, t);
    let r2 = next_line(r1)->Some_0.1;
    lemma_next_line_append(r2, t);
    let r3 = next_line(r2)->Some_0.1;
    lemma_next_line_append(r3, t);
    let r4 = next_line(r3)->Some_0.1;
    lemma_next_line_append(r4, t);
}

/// The bytes that `encapsulate_to_fctp` sends: with the all-zero key (no session
/// yet) the text itself; otherwise a binary frame of it, or nothing when it cannot
/// be encrypted.
pub open spec fn gui_packet_ok(packet: Seq<u8>, text: Seq<char>, key: Seq<u8>) -> bool {
    if key == zero_key() {
        packet == encode_utf8(text)
    } else if encode_utf8(text).len() <= aes_gcm_max_plaintext() {
        is_binary_encryption(packet, key, encode_utf8(text))
    } else {
        packet.len() == 0
    }
}

/// Writes a message with a numeric code and, once a session key is set, encrypts it
/// (see `gui_packet_ok`).
pub fn encapsulate_to_fctp(code: i32, from: &str, body: &str, to: &str, session_key: [u8; 32]) -> (r: Vec<u8>)
    ensures
        gui_packet_ok(r@, message_text(code, from@, body@, to@), session_key@),
{
    let message = string_of(&message_chars(code, from, body, to, true));
    if is_zero_key(&session_key) {
        return vstd::slice::slice_to_vec(message.as_str().as_bytes());
    }
    match encrypt_binary(message.as_str(), &session_key) {
        Ok(encrypted) => encrypted,
        Err(_) => Vec::new(),
    }
}

/// What `decapsulate_fctp_message` reads from `msg` under `key`: with the all-zero
/// key the bytes are the text; otherwise a binary frame that must decrypt; the text
/// must be UTF-8 and parse.
pub open spec fn gui_decapsulate(msg: Seq<u8>, key: Seq<u8>) -> Option<(i32, Seq<char>, Seq<char>, Seq<char>)> {
    let bytes = if key == zero_key() {
        Some(msg)
    } else {
        match decrypt_binary_result(msg, key) {
            Ok(p) => Some(p),
            Err(_) => None,
        }
    };
    match bytes {
        Some(b) => if valid_utf8(b) {
            parse_plain(decode_utf8(b))
        } else {
            None
        },
        None => None,
    }
}

/// Reads a message received under `session_key` (see `gui_decapsulate`).
pub fn decapsulate_fctp_message(msg: &[u8], session_key: [u8; 32]) -> (r: Option<FctpMessage>)
    ensures
        message_option_view(r) == gui_decapsulate(msg@, session_key@),
{
    let bytes = if is_zero_key(&session_key) {
        vstd::slice::slice_to_vec(msg)
    } else {
        match decrypt_binary(msg, &session_key) {
            Ok(p) => p,
            Err(_) => return None,
        }
    };
    match string_from_utf8(bytes) {
        Ok(text) => parse_plain_message(text.as_str()),
        Err(_) => None,
    }
}

/// Reading back, under the same key, what writing a message made gives the code and
/// the trimmed fields, when the fields hold no line feed; under a session key, when
/// the text is short enough to be encrypted and framed.
pub proof fn law_gui_roundtrip(packet: Seq<u8>, key: Seq<u8>, code: i32, from: Seq<char>, body: Seq<char>, to: Seq<char>)
    requires
        no_newline(from),
        no_newline(body),
        no_newline(to),
        gui_packet_ok(packet, message_text(code, from, body, to), key),
        key != zero_key() ==> encode_utf8(message_text(code, from, body, to)).len() + aead_tag_len() < 0x1_0000_0000,
    ensures
        gui_decapsulate(packet, key) == Some((code, trim(from), trim(body), trim(to))),
{
    let text = message_text(code, from, body, to);
    lemma_parse_message_text(code, from, body, to);
    vstd::utf8::encode_utf8_valid_utf8(text);
    vstd::utf8::encode_utf8_decode_utf8(text);
    if key != zero_key() {
        law_binary_roundtrip(packet, key, encode_utf8(text));
    }
}

/// What the graphical client does with a message it received.
pub enum GuiAction {
    /// Show the line in the conversation.
    Show(String),
    /// Show the line, and raise a notification with the text.
    Chat { line: String, notification: String },
    /// Note that the server answered a ping.
    Pong,
    /// Stop: the message breaks an assumption of the client.
    Stop(String),
    /// Nothing to show.
    Nothing,
}

/// A `GuiAction` as a value.
pub enum GuiActionView {
    Show(Seq<char>),
    Chat(Seq<char>, Seq<char>),
    Pong,
    Stop(Seq<char>),
    Nothing,
}

impl View for GuiAction {
    type V = GuiActionView;

    open spec fn view(&self) -> GuiActionView {
        match self {
            GuiAction::Show(s) => GuiActionView::Show(s@),
            GuiAction::Chat { line, notification } => GuiActionView::Chat(line@, notification@),
            GuiAction::Pong => GuiActionView::Pong,
            GuiAction::Stop(s) => GuiActionView::Stop(s@),
            GuiAction::Nothing => GuiActionView::Nothing,
        }
    }
}

/// What a received message does to the session, and what the client does with it:
/// by code, 200 is a user's message, 201 a server's, 405 and 505 errors, 900 with
/// body `id` gives the identifiers, 11 answers a ping; other codes are unsupported.
pub open spec fn gui_stream_step(old: ClientView, message: Seq<u8>) -> (ClientView, GuiActionView) {
    match gui_decapsulate(message, old.session_key) {
        None => (old, match malformed_preview_result(message) {
            Ok(line) => GuiActionView::Show(line),
            Err(e) => GuiActionView::Stop(e),
        }),
        Some((code, from, body, to)) => if code == 200 {
            (old, GuiActionView::Chat("<"@ + from + "> "@ + body, from + ": "@ + body))
        } else if code == 201 {
            (old, GuiActionView::Show("|SERVER| "@ + body))
        } else if code == 405 {
            (old, GuiActionView::Show("[!Client error!] "@ + body))
        } else if code == 505 {
            (old, GuiActionView::Show("[!Server error!] "@ + body))
        } else if code == 900 {
            if body == "id"@ {
                (ClientView { id: to, server_id: from, ..old }, GuiActionView::Nothing)
            } else {
                (old, GuiActionView::Nothing)
            }
        } else if code == 11 {
            (old, GuiActionView::Pong)
        } else {
            (old, GuiActionView::Show(
                "[!Unsupported code!]: "@ + dec_i32(code) + "\nUpdate your client or ask server admin to update!"@,
            ))
        },
    }
}

/// What the graphical client does with a message written with `code`, `from`,
/// `body`, `to` (fields without line feeds) and sent under its key, by code: a
/// server's message (201) is shown as `|SERVER| ` and the body; errors (405, 505)
/// are shown with their labels; a user's message (200) is shown and notified; a
/// pong (11) is noted; 900 with body `id` takes the identifiers; every other code is
/// reported as unsupported. Only 900 changes the session.
pub proof fn law_gui_reply_by_code(old: ClientView, packet: Seq<u8>, code: i32, from: Seq<char>, body: Seq<char>, to: Seq<char>)
    requires
        no_newline(from),
        no_newline(body),
        no_newline(to),
        gui_packet_ok(packet, message_text(code, from, body, to), old.session_key),
        old.session_key != zero_key() ==> encode_utf8(message_text(code, from, body, to)).len() + aead_tag_len() < 0x1_0000_0000,
    ensures
        ({
            let (new, a) = gui_stream_step(old, packet);
            &&& code == 200 ==> new == old && a == GuiActionView::Chat(
                "<"@ + trim(from) + "> "@ + trim(body),
                trim(from) + ": "@ + trim(body),
            )
            &&& code == 201 ==> new == old && a == GuiActionView::Show("|SERVER| "@ + trim(body))
            &&& code == 405 ==> new == old && a == GuiActionView::Show("[!Client error!] "@ + trim(body))
            &&& code == 505 ==> new == old && a == GuiActionView::Show("[!Server error!] "@ + trim(body))
            &&& code == 11 ==> new == old && a == GuiActionView::Pong
            &&& code == 900 && trim(body) == "id"@ ==> new == (ClientView { id: trim(to), server_id: trim(from), ..old })
                && a == GuiActionView::Nothing
            &&& code != 200 && code != 201 && code != 405 && code != 505 && code != 11 && code != 900 ==> new == old
                && a == GuiActionView::Show(
                "[!Unsupported code!]: "@ + dec_i32(code) + "\nUpdate your client or ask server admin to update!"@,
            )
        }),
{
    law_gui_roundtrip(packet, old.session_key, code, from, body, to);
}

/// A `String` with the characters of the two pieces.
fn join2(a: &str, b: &str) -> (out: String)
    ensures
        out@ == a@ + b@,
{
    let mut v = chars_of(a);
    push_str_chars(&mut v, b);
    string_of(&v)
}

/// A `String` with the characters of the three pieces.
fn join3(a: &str, b: &str, c: &str) -> (out: String)
    ensures
        out@ == a@ + b@ + c@,
{
    let mut v = chars_of(a);
    push_str_chars(&mut v, b);
    push_str_chars(&mut v, c);
    string_of(&v)
}

/// Handles a message received from the server (see `gui_stream_step`).
pub fn process_fctp_stream(state: &mut ClientState, message: &[u8]) -> (a: GuiAction)
    ensures
        (final(state)@, a@) == gui_stream_step(old(state)@, message@),
{
    let key = state.session_key;
    match decapsulate_fctp_message(message, key) {
        None => match malformed_preview(message) {
            Ok(line) => GuiAction::Show(line),
            Err(e) => GuiAction::Stop(e),
        },
        Some(msg) => {
            if msg.code == 200 {
                let mut line = chars_of("<");
                push_str_chars(&mut line, msg.from.as_str());
                push_str_chars(&mut line, "> ");
                push_str_chars(&mut line, msg.body.as_str());
                GuiAction::Chat { line: string_of(&line), notification: join3(msg.from.as_str(), ": ", msg.body.as_str()) }
            } else if msg.code == 201 {
                GuiAction::Show(join2("|SERVER| ", msg.body.as_str()))
            } else if msg.code == 405 {
                GuiAction::Show(join2("[!Client error!] ", msg.body.as_str()))
            } else if msg.code == 505 {
                GuiAction::Show(join2("[!Server error!] ", msg.body.as_str()))
            } else if msg.code == 900 {
                if msg.body == string_from("id") {
                    set_id(state, msg.to.as_str());
                    set_server_id(state, msg.from.as_str());
                }
                GuiAction::Nothing
            } else if msg.code == 11 {
                GuiAction::Pong
            } else {
                let mut v = chars_of("[!Unsupported code!]: ");
                push_chars(&mut v, &dec_i32_chars(msg.code));
                push_str_chars(&mut v, "\nUpdate your client or ask server admin to update!");
                GuiAction::Show(string_of(&v))
            }
        },
    }
}

} // verus!
