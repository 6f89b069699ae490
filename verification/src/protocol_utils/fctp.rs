//! The protocol's messages as the desktop client speaks them: typed codes, errors
//! that say what went wrong, and messages encrypted under the session key in
//! binary frames.

use vstd::prelude::*;
use vstd::string::StringSliceAdditionalSpecFns;
use vstd::utf8::{decode_utf8, encode_utf8, valid_utf8};

use crate::crypt::primitives::{aead_tag_len, aes_gcm_max_plaintext};
use crate::crypt::symmetric::{KEYSTREAM_STOP, string_from, decrypt_binary, decrypt_binary_result, encrypt_binary, is_binary_encryption, law_binary_roundtrip};
use crate::crypt::utils::{string_from_utf8, utf8_error_text};
use crate::fctp_text::{lemma_next_line_append, 
    crlf, lemma_header_value, lemma_labels_no_newline, lemma_no_newline_concat, BODY_LABEL,
    FROM_LABEL, TO_LABEL, header_value, header_value_chars, lemma_parse_message_text, message_chars, message_text,
    parse_plain, PROTOCOL_VERSION,
};
use crate::protocol_utils::fctp_me::{get_id, set_id};
use crate::crypt::asymmetric::{decrypt, decrypt_result, is_asymmetric_encryption, is_message_too_long, law_asymmetric_roundtrip, message_too_long};
use crate::crypt::primitives::{x25519_base, xchacha_keystream_stops};
use crate::crypt::utils::{base64_decode, base64_standard_decode, string_from_utf8_lossy, utf8_lossy};
use crate::protocol_utils::fctp_secure::{insert_pk_in_e2ee_key_table, key_array};
use crate::protocol_utils::session::{is_zero_key, zero_key, ClientState, ClientView};
use crate::text::{
    lemma_next_line_crlf, lemma_parse_dec_i32, chars_eq, chars_of, dec_i32, dec_i32_chars, next_line, no_newline, parse_i32, parse_i32_chars,
    push_chars, push_str_chars, string_of, strip_prefix, take_line, trim, trim_chars,
};

verus! {

/// What went wrong in the protocol, with a text that says more.
#[derive(Debug)]
pub enum FctpError {
    EncryptionFailed(String),
    DecryptionFailed(String),
    MalformedMessage(String),
    InvalidProtocolVersion(String),
    NetworkError(String),
    ClientNotFound(String),
    InvalidNickname(String),
}

/// An `FctpError` as a value.
pub enum FctpErrorView {
    EncryptionFailed(Seq<char>),
    DecryptionFailed(Seq<char>),
    MalformedMessage(Seq<char>),
    InvalidProtocolVersion(Seq<char>),
    NetworkError(Seq<char>),
    ClientNotFound(Seq<char>),
    InvalidNickname(Seq<char>),
}

impl View for FctpError {
    type V = FctpErrorView;

    open spec fn view(&self) -> FctpErrorView {
        match self {
            FctpError::EncryptionFailed(s) => FctpErrorView::EncryptionFailed(s@),
            FctpError::DecryptionFailed(s) => FctpErrorView::DecryptionFailed(s@),
            FctpError::MalformedMessage(s) => FctpErrorView::MalformedMessage(s@),
            FctpError::InvalidProtocolVersion(s) => FctpErrorView::InvalidProtocolVersion(s@),
            FctpError::NetworkError(s) => FctpErrorView::NetworkError(s@),
            FctpError::ClientNotFound(s) => FctpErrorView::ClientNotFound(s@),
            FctpError::InvalidNickname(s) => FctpErrorView::InvalidNickname(s@),
        }
    }
}

/// The text that an error shows: what went wrong, a colon, and the detail.
pub open spec fn error_text(e: FctpErrorView) -> Seq<char> {
    match e {
        FctpErrorView::EncryptionFailed(s) => "Encryption failed: "@ + s,
        FctpErrorView::DecryptionFailed(s) => "Decryption failed: "@ + s,
        FctpErrorView::MalformedMessage(s) => "Malformed message: "@ + s,
        FctpErrorView::InvalidProtocolVersion(s) => "Invalid protocol version: "@ + s,
        FctpErrorView::NetworkError(s) => "Network error: "@ + s,
        FctpErrorView::ClientNotFound(s) => "Client not found: "@ + s,
        FctpErrorView::InvalidNickname(s) => "Invalid nickname: "@ + s,
    }
}

impl FctpError {
    /// The text that the error shows (see `error_text`).
    pub fn to_string(&self) -> (t: String)
        ensures
            t@ == error_text(self@),
    {
        let (head, detail) = match self {
            FctpError::EncryptionFailed(s) => ("Encryption failed: ", s),
            FctpError::DecryptionFailed(s) => ("Decryption failed: ", s),
            FctpError::MalformedMessage(s) => ("Malformed message: ", s),
            FctpError::InvalidProtocolVersion(s) => ("Invalid protocol version: ", s),
            FctpError::NetworkError(s) => ("Network error: ", s),
            FctpError::ClientNotFound(s) => ("Client not found: ", s),
            FctpError::InvalidNickname(s) => ("Invalid nickname: ", s),
        };
        let mut v = chars_of(head);
        push_str_chars(&mut v, detail.as_str());
        string_of(&v)
    }
}

/// The codes of the protocol.
#[derive(Debug, Clone, Copy, PartialEq, Eq, Structural)]
pub enum FctpCode {
    Ping,
    Pong,
    Message,
    Command,
    BadRequest,
    MethodNotAllowed,
    InternalServerError,
    ServiceUnavailable,
    Hello,
    PublicKeyExchange,
    KeyRequest,
}

/// The number of each code on the wire.
pub open spec fn code_value(code: FctpCode) -> i32 {
    match code {
        FctpCode::Ping => 10,
        FctpCode::Pong => 11,
        FctpCode::Message => 200,
        FctpCode::Command => 201,
        FctpCode::BadRequest => 400,
        FctpCode::MethodNotAllowed => 405,
        FctpCode::InternalServerError => 500,
        FctpCode::ServiceUnavailable => 505,
        FctpCode::Hello => 900,
        FctpCode::PublicKeyExchange => 901,
        FctpCode::KeyRequest => 902,
    }
}

/// The code that a number stands for, if any.
pub open spec fn code_of(value: i32) -> Option<FctpCode> {
    if value == 10 {
        Some(FctpCode::Ping)
    } else if value == 11 {
        Some(FctpCode::Pong)
    } else if value == 200 {
        Some(FctpCode::Message)
    } else if value == 201 {
        Some(FctpCode::Command)
    } else if value == 400 {
        Some(FctpCode::BadRequest)
    } else if value == 405 {
        Some(FctpCode::MethodNotAllowed)
    } else if value == 500 {
        Some(FctpCode::InternalServerError)
    } else if value == 505 {
        Some(FctpCode::ServiceUnavailable)
    } else if value == 900 {
        Some(FctpCode::Hello)
    } else if value == 901 {
        Some(FctpCode::PublicKeyExchange)
    } else if value == 902 {
        Some(FctpCode::KeyRequest)
    } else {
        None
    }
}

impl FctpCode {
    /// The code that `code` stands for; `None` for a number that is no code.
    pub fn from_i32(code: i32) -> (r: Option<Self>)
        ensures
            r == code_of(code),
    {
        match code {
            10 => Some(Self::Ping),
            11 => Some(Self::Pong),
            200 => Some(Self::Message),
            201 => Some(Self::Command),
            400 => Some(Self::BadRequest),
            405 => Some(Self::MethodNotAllowed),
            500 => Some(Self::InternalServerError),
            505 => Some(Self::ServiceUnavailable),
            900 => Some(Self::Hello),
            901 => Some(Self::PublicKeyExchange),
            902 => Some(Self::KeyRequest),
            _ => None,
        }
    }

    /// The number of the code on the wire.
    pub fn as_i32(&self) -> (v: i32)
        ensures
            v == code_value(*self),
    {
        match self {
            Self::Ping => 10,
            Self::Pong => 11,
            Self::Message => 200,
            Self::Command => 201,
            Self::BadRequest => 400,
            Self::MethodNotAllowed => 405,
            Self::InternalServerError => 500,
            Self::ServiceUnavailable => 505,
            Self::Hello => 900,
            Self::PublicKeyExchange => 901,
            Self::KeyRequest => 902,
        }
    }
}

/// Each code's number reads back as the code, and a number read as a code is that
/// code's number.
pub proof fn law_code_roundtrip(code: FctpCode, value: i32)
    ensures
        code_of(code_value(code)) == Some(code),
        code_of(value) == Some(code) ==> code_value(code) == value,
{
}

/// A message of the protocol.
#[derive(Debug, Clone, PartialEq)]
pub struct FctpMessage {
    pub code: FctpCode,
    pub from: String,
    pub body: String,
    pub to: String,
}

impl View for FctpMessage {
    type V = (FctpCode, Seq<char>, Seq<char>, Seq<char>);

    open spec fn view(&self) -> Self::V {
        (self.code, self.from@, self.body@, self.to@)
    }
}

impl FctpMessage {
    /// A message with the given code, sender, body and recipient.
    pub fn new(code: FctpCode, from: &str, body: &str, to: &str) -> (m: Self)
        ensures
            m@ == (code, from@, body@, to@),
    {
        FctpMessage {
            code,
            from: String::from_str(from),
            body: String::from_str(body),
            to: String::from_str(to),
        }
    }

    /// A ping from this client to `to`.
    pub fn ping(state: &ClientState, to: &str) -> (m: Self)
        ensures
            m@ == (FctpCode::Ping, state@.id, "ping"@, to@),
    {
        Self::new(FctpCode::Ping, get_id(state).as_str(), "ping", to)
    }

    /// A pong from this client to `to`.
    pub fn pong(state: &ClientState, to: &str) -> (m: Self)
        ensures
            m@ == (FctpCode::Pong, state@.id, "pong"@, to@),
    {
        Self::new(FctpCode::Pong, get_id(state).as_str(), "pong", to)
    }

    /// A message from this client, with the given code and text, to `to`.
    pub fn error(state: &ClientState, code: FctpCode, message: &str, to: &str) -> (m: Self)
        ensures
            m@ == (code, state@.id, message@, to@),
    {
        Self::new(code, get_id(state).as_str(), message, to)
    }
}

/// Records the server's identifier.
pub fn set_server_id(state: &mut ClientState, new_id: &str)
    ensures
        final(state)@ == (ClientView { server_id: new_id@, ..old(state)@ }),
{
    state.server_id = String::from_str(new_id);
}

/// The server's identifier.
pub fn get_server_id(state: &ClientState) -> (id: String)
    ensures
        id@ == state@.server_id,
{
    state.server_id.clone()
}

/// Records the recipient that the user selected.
pub fn set_current_recipient(state: &mut ClientState, new_username: &str)
    ensures
        final(state)@ == (ClientView { current_recipient: new_username@, ..old(state)@ }),
{
    state.current_recipient = String::from_str(new_username);
}

/// The recipient that the user selected.
pub fn get_current_recipient(state: &ClientState) -> (name: String)
    ensures
        name@ == state@.current_recipient,
{
    state.current_recipient.clone()
}

/// What `parse_header_field` gives for a line (or its absence) and a field name:
/// the trimmed text after `<name>: `, or the error that says the line is missing or
/// does not start so.
pub open spec fn header_field_result(line: Option<Seq<char>>, name: Seq<char>) -> Result<
    Seq<char>,
    FctpErrorView,
> {
    match line {
        None => Err(FctpErrorView::MalformedMessage("Missing "@ + name + " line"@)),
        Some(l) => match strip_prefix(l, name + ": "@) {
            Some(rest) => Ok(trim(rest)),
            None => Err(FctpErrorView::MalformedMessage("Invalid "@ + name + " format: "@ + l)),
        },
    }
}

/// The first line of `s`, if it has one.
pub open spec fn first_line(s: Seq<char>) -> Option<Seq<char>> {
    match next_line(s) {
        Some((l, _)) => Some(l),
        None => None,
    }
}

/// What follows the first line of `s` (nothing when it has none).
pub open spec fn after_first_line(s: Seq<char>) -> Seq<char> {
    match next_line(s) {
        Some((_, r)) => r,
        None => Seq::empty(),
    }
}

/// The message fields that `parse_fctp_message` reads from the lines after the code
/// line: `From`, `Body`, `To`, in that order; the first failure stops it.
pub open spec fn parse_fields_result(code: FctpCode, r2: Seq<char>) -> Result<
    (FctpCode, Seq<char>, Seq<char>, Seq<char>),
    FctpErrorView,
> {
    let r3 = after_first_line(r2);
    let r4 = after_first_line(r3);
    match header_field_result(first_line(r2), "From"@) {
        Err(e) => Err(e),
        Ok(from) => match header_field_result(first_line(r3), "Body"@) {
            Err(e) => Err(e),
            Ok(body) => match header_field_result(first_line(r4), "To"@) {
                Err(e) => Err(e),
                Ok(to) => Ok((code, from, body, to)),
            },
        },
    }
}

/// What `parse_fctp_message` gives for a text: the message, or the first error met:
/// no first line, a first line other than the protocol's, no code line, a code line
/// that is no number, a number that is no code, then the three header lines.
pub open spec fn parse_message_result(s: Seq<char>) -> Result<
    (FctpCode, Seq<char>, Seq<char>, Seq<char>),
    FctpErrorView,
> {
    match next_line(s) {
        None => Err(FctpErrorView::MalformedMessage("Missing protocol line"@)),
        Some((l1, r1)) => if l1 != PROTOCOL_VERSION@ {
            Err(FctpErrorView::InvalidProtocolVersion(l1))
        } else {
            match next_line(r1) {
                None => Err(FctpErrorView::MalformedMessage("Missing code line"@)),
                Some((l2, r2)) => match parse_i32(trim(l2)) {
                    None => Err(FctpErrorView::MalformedMessage("Invalid code: "@ + trim(l2))),
                    Some(value) => match code_of(value) {
                        None => Err(FctpErrorView::MalformedMessage("Unknown code: "@ + dec_i32(value))),
                        Some(code) => parse_fields_result(code, r2),
                    },
                },
            }
        },
    }
}

/// Text after a complete message does not change what the parser reads: once the
/// five lines of a message that parses have been read up to a line feed, whatever
/// follows is never looked at.
pub proof fn law_parse_ignores_trailing_text(s: Seq<char>, t: Seq<char>)
    requires
        parse_message_result(s) is Ok,
        s.len() > 0,
        s.last() == '\n',
    ensures
        parse_message_result(s + t) == parse_message_result(s),
{
    lemma_next_line_append(s, t);
    let r1 = next_line(s)->Some_0.1;
    assert(next_line(r1) is Some);
    lemma_next_line_append(r1, t);
    let r2 = next_line(r1)->Some_0.1;
    assert(first_line(r2) is Some);
    lemma_next_line_append(r2, t);
    let r3 = after_first_line(r2);
    assert(first_line(r3) is Some);
    lemma_next_line_append(r3, t);
    let r4 = after_first_line(r3);
    assert(first_line(r4) is Some);
    lemma_next_line_append(r4, t);
    assert(first_line(r2 + t) == first_line(r2));
    assert(after_first_line(r2 + t) == r3 + t);
    assert(first_line(r3 + t) == first_line(r3));
    assert(after_first_line(r3 + t) == r4 + t);
    assert(first_line(r4 + t) == first_line(r4));
}

/// The view of a result that carries a message or an error.
pub open spec fn message_result_view(r: Result<FctpMessage, FctpError>) -> Result<
    (FctpCode, Seq<char>, Seq<char>, Seq<char>),
    FctpErrorView,
> {
    match r {
        Ok(m) => Ok(m@),
        Err(e) => Err(e@),
    }
}

/// A `String` with the characters of the three pieces.
fn join3(a: &str, b: &Vec<char>, c: &str) -> (out: String)
    ensures
        out@ == a@ + b@ + c@,
{
    let mut v = chars_of(a);
    push_chars(&mut v, b);
    push_str_chars(&mut v, c);
    string_of(&v)
}

/// A `String` with the characters of the two pieces.
fn join2(a: &str, b: &Vec<char>) -> (out: String)
    ensures
        out@ == a@ + b@,
{
    let mut v = chars_of(a);
    push_chars(&mut v, b);
    string_of(&v)
}

/// Reads a header line given as characters (see `header_field_result`).
fn header_field_chars(line: Option<Vec<char>>, field_name: &str) -> (r: Result<String, FctpError>)
    ensures
        match r {
            Ok(v) => header_field_result(
                match line {
                    Some(l) => Some(l@),
                    None => None,
                },
                field_name@,
            ) == Ok::<Seq<char>, FctpErrorView>(v@),
            Err(e) => header_field_result(
                match line {
                    Some(l) => Some(l@),
                    None => None,
                },
                field_name@,
            ) == Err::<Seq<char>, FctpErrorView>(e@),
        },
{
    let name = chars_of(field_name);
    match line {
        None => Err(FctpError::MalformedMessage(join3("Missing ", &name, " line"))),
        Some(l) => {
            let mut prefix = chars_of(field_name);
            push_str_chars(&mut prefix, ": ");
            match crate::text::strip_prefix_chars(&l, &prefix) {
                Some(rest) => Ok(string_of(&trim_chars(&rest))),
                None => {
                    let mut text = chars_of("Invalid ");
                    push_chars(&mut text, &name);
                    push_str_chars(&mut text, " format: ");
                    push_chars(&mut text, &l);
                    Err(FctpError::MalformedMessage(string_of(&text)))
                },
            }
        },
    }
}

/// Reads a header line: the trimmed text after `<field_name>: `; `Missing <field_name>
/// line` without a line, `Invalid <field_name> format: <line>` when it does not
/// start so.
pub fn parse_header_field(line: Option<&str>, field_name: &str) -> (r: Result<String, FctpError>)
    ensures
        match r {
            Ok(v) => header_field_result(
                match line {
                    Some(l) => Some(l@),
                    None => None,
                },
                field_name@,
            ) == Ok::<Seq<char>, FctpErrorView>(v@),
            Err(e) => header_field_result(
                match line {
                    Some(l) => Some(l@),
                    None => None,
                },
                field_name@,
            ) == Err::<Seq<char>, FctpErrorView>(e@),
        },
{
    let chars = match line {
        Some(l) => Some(chars_of(l)),
        None => None,
    };
    header_field_chars(chars, field_name)
}

/// The optional line as a value.
pub open spec fn line_view(l: Option<Vec<char>>) -> Option<Seq<char>> {
    match l {
        Some(v) => Some(v@),
        None => None,
    }
}

/// Reads the line at `pos`, giving it (if any) and the position after it.
fn next_line_at(v: &Vec<char>, pos: usize) -> (r: (Option<Vec<char>>, usize))
    requires
        pos <= v.len(),
    ensures
        r.1 <= v.len(),
        line_view(r.0) == first_line(v@.skip(pos as int)),
        v@.skip(r.1 as int) == after_first_line(v@.skip(pos as int)),
{
    match take_line(v, pos) {
        Some((l, np)) => (Some(l), np),
        None => {
            assert(v@.skip(v.len() as int) =~= Seq::<char>::empty());
            (None, v.len())
        },
    }
}

/// Parses a message text (see `parse_message_result`).
pub fn parse_fctp_message(message: &str) -> (r: Result<FctpMessage, FctpError>)
    ensures
        message_result_view(r) == parse_message_result(message@),
{
    let v = chars_of(message);
    assert(v@.skip(0) =~= v@);
    let (l1, p1) = match take_line(&v, 0) {
        Some(x) => x,
        None => return Err(FctpError::MalformedMessage(crate::crypt::symmetric::string_from("Missing protocol line"))),
    };
    let pv = chars_of(PROTOCOL_VERSION);
    if !chars_eq(&l1, &pv) {
        return Err(FctpError::InvalidProtocolVersion(string_of(&l1)));
    }
    let (l2, p2) = match take_line(&v, p1) {
        Some(x) => x,
        None => return Err(FctpError::MalformedMessage(crate::crypt::symmetric::string_from("Missing code line"))),
    };
    let code_str = trim_chars(&l2);
    let code_int = match parse_i32_chars(&code_str) {
        Some(c) => c,
        None => return Err(FctpError::MalformedMessage(join2("Invalid code: ", &code_str))),
    };
    let code = match FctpCode::from_i32(code_int) {
        Some(c) => c,
        None => {
            let digits = dec_i32_chars(code_int);
            return Err(FctpError::MalformedMessage(join2("Unknown code: ", &digits)));
        },
    };
    let (l3, p3) = next_line_at(&v, p2);
    let from = match header_field_chars(l3, "From") {
        Ok(x) => x,
        Err(e) => return Err(e),
    };
    let (l4, p4) = next_line_at(&v, p3);
    let body = match header_field_chars(l4, "Body") {
        Ok(x) => x,
        Err(e) => return Err(e),
    };
    let (l5, _p5) = next_line_at(&v, p4);
    let to = match header_field_chars(l5, "To") {
        Ok(x) => x,
        Err(e) => return Err(e),
    };
    Ok(FctpMessage { code, from, body, to })
}

/// `Debug` of a boxed error made from a text that needs no escaping: the text in
/// double quotes.
pub open spec fn quoted(text: Seq<char>) -> Seq<char> {
    seq!['"'] + text + seq!['"']
}

/// What the text of a decrypted message gives: the message, or the UTF-8 error.
pub open spec fn parse_bytes_result(bytes: Seq<u8>) -> Result<
    (FctpCode, Seq<char>, Seq<char>, Seq<char>),
    FctpErrorView,
> {
    if valid_utf8(bytes) {
        parse_message_result(decode_utf8(bytes))
    } else {
        Err(FctpErrorView::DecryptionFailed("UTF-8 decode error: "@ + utf8_error_text(bytes)))
    }
}

/// What `decapsulate_fctp_message` gives for `msg` under `key`. The all-zero key
/// means no session yet: the bytes are the message's text. Otherwise the bytes are
/// a binary frame, whose decryption error is reported in `Debug` form.
pub open spec fn decapsulate_result(msg: Seq<u8>, key: Seq<u8>) -> Result<
    (FctpCode, Seq<char>, Seq<char>, Seq<char>),
    FctpErrorView,
> {
    if key == zero_key() {
        parse_bytes_result(msg)
    } else {
        match decrypt_binary_result(msg, key) {
            Err(e) => Err(FctpErrorView::DecryptionFailed(quoted(e))),
            Ok(p) => parse_bytes_result(p),
        }
    }
}

/// The text of `message` on the wire, before encryption.
pub open spec fn wire_text(message: (FctpCode, Seq<char>, Seq<char>, Seq<char>)) -> Seq<char> {
    message_text(code_value(message.0), message.1, message.2, message.3)
}

/// Writes `message` as text and encrypts it under `session_key` into a binary frame.
/// Fails with `EncryptionFailed("Error")` exactly when AES-256-GCM refuses the text.
pub fn encapsulate_to_fctp(message: &FctpMessage, session_key: &[u8; 32]) -> (r: Result<Vec<u8>, FctpError>)
    ensures
        r is Ok <==> encode_utf8(wire_text(message@)).len() <= aes_gcm_max_plaintext(),
        r matches Ok(f) ==> is_binary_encryption(f@, session_key@, encode_utf8(wire_text(message@))),
        r matches Err(e) ==> e@ == FctpErrorView::EncryptionFailed("Error"@),
{
    let chars = message_chars(message.code.as_i32(), message.from.as_str(), message.body.as_str(), message.to.as_str(), true);
    let formatted_message = string_of(&chars);
    match encrypt_binary(formatted_message.as_str(), session_key) {
        Ok(f) => Ok(f),
        Err(_) => Err(FctpError::EncryptionFailed(crate::crypt::symmetric::string_from("Error"))),
    }
}

/// Parses decrypted bytes as a message's text (see `parse_bytes_result`).
fn parse_bytes(bytes: Vec<u8>) -> (r: Result<FctpMessage, FctpError>)
    ensures
        message_result_view(r) == parse_bytes_result(bytes@),
{
    match string_from_utf8(bytes) {
        Ok(text) => parse_fctp_message(text.as_str()),
        Err(e) => {
            let e_chars = chars_of(e.as_str());
            Err(FctpError::DecryptionFailed(join2("UTF-8 decode error: ", &e_chars)))
        },
    }
}

/// Reads a message received under `session_key` (see `decapsulate_result`).
pub fn decapsulate_fctp_message(msg: &[u8], session_key: &[u8; 32]) -> (r: Result<FctpMessage, FctpError>)
    ensures
        message_result_view(r) == decapsulate_result(msg@, session_key@),
{
    if is_zero_key(session_key) {
        parse_bytes(vstd::slice::slice_to_vec(msg))
    } else {
        match decrypt_binary(msg, session_key) {
            Ok(p) => parse_bytes(p),
            Err(e) => {
                let mut q = chars_of("\"");
                push_str_chars(&mut q, e.as_str());
                push_str_chars(&mut q, "\"");
                proof {
                    reveal_strlit("\"");
                    assert(q@ =~= quoted(e@));
                }
                Err(FctpError::DecryptionFailed(string_of(&q)))
            },
        }
    }
}

/// The text of a message written from fields without line feeds parses back to the
/// message with trimmed fields.
pub proof fn lemma_parse_wire_text(code: FctpCode, from: Seq<char>, body: Seq<char>, to: Seq<char>)
    requires
        no_newline(from),
        no_newline(body),
        no_newline(to),
    ensures
        parse_message_result(wire_text((code, from, body, to))) == Ok::<
            (FctpCode, Seq<char>, Seq<char>, Seq<char>),
            FctpErrorView,
        >((code, trim(from), trim(body), trim(to))),
{
    lemma_labels_no_newline();
    let value = code_value(code);
    lemma_parse_dec_i32(value);
    let pv = PROTOCOL_VERSION@;
    let d = dec_i32(value);
    let lf = FROM_LABEL@ + from;
    let lb = BODY_LABEL@ + body;
    let lt = TO_LABEL@ + to;
    lemma_no_newline_concat(FROM_LABEL@, from);
    lemma_no_newline_concat(BODY_LABEL@, body);
    lemma_no_newline_concat(TO_LABEL@, to);
    reveal_strlit("From");
    reveal_strlit("Body");
    reveal_strlit("To");
    reveal_strlit(": ");
    reveal_strlit("From: ");
    reveal_strlit("Body: ");
    reveal_strlit("To: ");
    assert("From"@ + ": "@ =~= FROM_LABEL@);
    assert("Body"@ + ": "@ =~= BODY_LABEL@);
    assert("To"@ + ": "@ =~= TO_LABEL@);
    lemma_header_value(FROM_LABEL@, from);
    lemma_header_value(BODY_LABEL@, body);
    lemma_header_value(TO_LABEL@, to);
    let r4 = lt + crlf() + crlf();
    let r3 = lb + crlf() + r4;
    let r2 = lf + crlf() + r3;
    let r1 = d + crlf() + r2;
    assert(wire_text((code, from, body, to)) =~= pv + crlf() + r1);
    lemma_next_line_crlf(pv, r1);
    lemma_next_line_crlf(d, r2);
    lemma_next_line_crlf(lf, r3);
    lemma_next_line_crlf(lb, r4);
    lemma_next_line_crlf(lt, crlf());
}

/// Reading, under the same non-zero session key, what writing a message made gives
/// the message back with trimmed fields, when its fields hold no line feed and its
/// encrypted text is shorter than 2^32 bytes.
pub proof fn law_encapsulation_roundtrip(
    frame: Seq<u8>,
    key: Seq<u8>,
    message: (FctpCode, Seq<char>, Seq<char>, Seq<char>),
)
    requires
        key != zero_key(),
        no_newline(message.1),
        no_newline(message.2),
        no_newline(message.3),
        is_binary_encryption(frame, key, encode_utf8(wire_text(message))),
        encode_utf8(wire_text(message)).len() + aead_tag_len() < 0x1_0000_0000,
    ensures
        decapsulate_result(frame, key) == Ok::<
            (FctpCode, Seq<char>, Seq<char>, Seq<char>),
            FctpErrorView,
        >((message.0, trim(message.1), trim(message.2), trim(message.3))),
{
    let text = wire_text(message);
    law_binary_roundtrip(frame, key, encode_utf8(text));
    vstd::utf8::encode_utf8_valid_utf8(text);
    vstd::utf8::encode_utf8_decode_utf8(text);
    lemma_parse_wire_text(message.0, message.1, message.2, message.3);
    assert(message == (message.0, message.1, message.2, message.3));
}

/// What the desktop client does with a message it received.
pub enum StreamAction {
    /// Show the text in the conversation.
    Show(String),
    /// Report the text on the error output.
    Report(String),
    /// Note that the server answered a ping.
    Pong,
    /// Stop: the message breaks an assumption of the client.
    Stop(String),
    /// Nothing to show.
    Nothing,
}

/// A `StreamAction` as a value.
pub enum StreamActionView {
    Show(Seq<char>),
    Report(Seq<char>),
    Pong,
    Stop(Seq<char>),
    Nothing,
}

impl View for StreamAction {
    type V = StreamActionView;

    open spec fn view(&self) -> StreamActionView {
        match self {
            StreamAction::Show(s) => StreamActionView::Show(s@),
            StreamAction::Report(s) => StreamActionView::Report(s@),
            StreamAction::Pong => StreamActionView::Pong,
            StreamAction::Stop(s) => StreamActionView::Stop(s@),
            StreamAction::Nothing => StreamActionView::Nothing,
        }
    }
}

/// The name of a code, as `Debug` writes it.
pub open spec fn code_name(code: FctpCode) -> Seq<char> {
    match code {
        FctpCode::Ping => "Ping"@,
        FctpCode::Pong => "Pong"@,
        FctpCode::Message => "Message"@,
        FctpCode::Command => "Command"@,
        FctpCode::BadRequest => "BadRequest"@,
        FctpCode::MethodNotAllowed => "MethodNotAllowed"@,
        FctpCode::InternalServerError => "InternalServerError"@,
        FctpCode::ServiceUnavailable => "ServiceUnavailable"@,
        FctpCode::Hello => "Hello"@,
        FctpCode::PublicKeyExchange => "PublicKeyExchange"@,
        FctpCode::KeyRequest => "KeyRequest"@,
    }
}

/// The name of a code, as `Debug` writes it.
pub fn code_name_string(code: FctpCode) -> (s: String)
    ensures
        s@ == code_name(code),
{
    match code {
        FctpCode::Ping => crate::crypt::symmetric::string_from("Ping"),
        FctpCode::Pong => crate::crypt::symmetric::string_from("Pong"),
        FctpCode::Message => crate::crypt::symmetric::string_from("Message"),
        FctpCode::Command => crate::crypt::symmetric::string_from("Command"),
        FctpCode::BadRequest => crate::crypt::symmetric::string_from("BadRequest"),
        FctpCode::MethodNotAllowed => crate::crypt::symmetric::string_from("MethodNotAllowed"),
        FctpCode::InternalServerError => crate::crypt::symmetric::string_from("InternalServerError"),
        FctpCode::ServiceUnavailable => crate::crypt::symmetric::string_from("ServiceUnavailable"),
        FctpCode::Hello => crate::crypt::symmetric::string_from("Hello"),
        FctpCode::PublicKeyExchange => crate::crypt::symmetric::string_from("PublicKeyExchange"),
        FctpCode::KeyRequest => crate::crypt::symmetric::string_from("KeyRequest"),
    }
}

/// What a user-to-user message gives: its body, trimmed, is the Base64 of a message
/// encrypted to this client's end-to-end key; the decrypted text is shown after the
/// sender's name, trimmed. A message long enough to run XChaCha20's counter out
/// stops the client (decrypting it would panic if it authenticated, which cannot be
/// known before).
pub open spec fn chat_action(e2ee_sec: Seq<u8>, from: Seq<char>, body: Seq<char>) -> StreamActionView {
    match base64_standard_decode(trim(body)) {
        Err(e) => StreamActionView::Report("Couldn't decode: "@ + e),
        Ok(bytes) => if message_too_long(bytes) {
            StreamActionView::Stop(KEYSTREAM_STOP@)
        } else {
            match decrypt_result(e2ee_sec, bytes) {
                Err(e) => StreamActionView::Report("Couldn't decrypt: "@ + e),
                Ok(p) => StreamActionView::Show("<"@ + from + "> "@ + trim(utf8_lossy(p))),
            }
        },
    }
}

/// The line that shows a message that could not be read: its lossy text, at most
/// its first 100 bytes followed by `...`, after `[!Malformed message!]: `. Cutting
/// inside a character is an error, as slicing a `str` there stops the program.
pub open spec fn malformed_preview_result(message: Seq<u8>) -> Result<Seq<char>, Seq<char>> {
    let bytes = encode_utf8(utf8_lossy(message));
    if bytes.len() > 100 {
        if vstd::utf8::is_char_boundary(bytes, 100) {
            Ok("[!Malformed message!]: "@ + decode_utf8(bytes.take(100)) + "..."@)
        } else {
            Err("byte index 100 is not a char boundary"@)
        }
    } else {
        Ok("[!Malformed message!]: "@ + utf8_lossy(message))
    }
}

/// What a message that could not be read gives: its preview is shown, or the
/// client stops (see `malformed_preview_result`).
pub open spec fn malformed_action(message: Seq<u8>) -> StreamActionView {
    match malformed_preview_result(message) {
        Ok(line) => StreamActionView::Show(line),
        Err(e) => StreamActionView::Stop(e),
    }
}

/// What a received message does to the session, and what the client does with it.
pub open spec fn stream_step(old: ClientView, message: Seq<u8>) -> (ClientView, StreamActionView) {
    match decapsulate_result(message, old.session_key) {
        Err(_) => (old, malformed_action(message)),
        Ok((code, from, body, to)) => match code {
            FctpCode::Message => (ClientView { last_ack: true, ..old }, chat_action(old.e2ee_sec, from, body)),
            FctpCode::Command => (ClientView { last_ack: true, ..old }, StreamActionView::Show("|SERVER| "@ + body)),
            FctpCode::MethodNotAllowed => (
                ClientView { last_ack: true, request_error: true, ..old },
                StreamActionView::Show("[!Client error!] "@ + body),
            ),
            FctpCode::InternalServerError => (
                ClientView { last_ack: true, request_error: true, ..old },
                StreamActionView::Show("[!Server error!] "@ + body),
            ),
            FctpCode::Hello => if body == "id"@ {
                (ClientView { id: to, server_id: from, ..old }, StreamActionView::Nothing)
            } else {
                (old, StreamActionView::Nothing)
            },
            FctpCode::KeyRequest => match base64_standard_decode(trim(body)) {
                Err(_) => (old, StreamActionView::Stop("Base64 decode failed"@)),
                Ok(k) => if k.len() != 32 {
                    (old, StreamActionView::Stop("Invalid key length"@))
                } else {
                    (
                        ClientView {
                            key_table: old.key_table.insert(old.current_recipient, k),
                            last_ack: true,
                            ..old
                        },
                        StreamActionView::Nothing,
                    )
                },
            },
            FctpCode::Pong => (old, StreamActionView::Pong),
            _ => (
                old,
                StreamActionView::Show(
                    "[!Unsupported code!]: "@ + code_name(code) + "\nUpdate your client or contact server admin!"@,
                ),
            ),
        },
    }
}

/// A user's message reaches its reader as its sender wrote it: when a frame opens,
/// under the session key, to a `Message` from `from` whose body is the Base64 of
/// any message that encrypts `plaintext` to this client's end-to-end public key,
/// the client shows `<from> ` and the plaintext's text (as `from_utf8_lossy` reads
/// it), trimmed, and notes the acknowledgement; nothing else changes.
pub proof fn law_chat_message_shows_plaintext(
    old: ClientView,
    frame: Seq<u8>,
    from: Seq<char>,
    body: Seq<char>,
    to: Seq<char>,
    m: Seq<u8>,
    plaintext: Seq<u8>,
)
    requires
        decapsulate_result(frame, old.session_key) == Ok::<(FctpCode, Seq<char>, Seq<char>, Seq<char>), FctpErrorView>(
            (FctpCode::Message, from, body, to),
        ),
        base64_standard_decode(trim(body)) == Ok::<Seq<u8>, Seq<char>>(m),
        old.e2ee_sec.len() == 32,
        is_asymmetric_encryption(m, x25519_base(old.e2ee_sec), plaintext),
        !xchacha_keystream_stops(plaintext.len() as int),
    ensures
        stream_step(old, frame) == (
            ClientView { last_ack: true, ..old },
            StreamActionView::Show("<"@ + from + "> "@ + trim(utf8_lossy(plaintext))),
        ),
{
    law_asymmetric_roundtrip(old.e2ee_sec, m, plaintext);
}

/// Shows a user-to-user message (see `chat_action`).
fn chat_message(state: &ClientState, from: &String, body: &String) -> (a: StreamAction)
    ensures
        a@ == chat_action(state@.e2ee_sec, from@, body@),
{
    let trimmed = string_of(&trim_chars(&chars_of(body.as_str())));
    match base64_decode(trimmed.as_str()) {
        Err(e) => report("Couldn't decode: ", e),
        Ok(bytes) => if is_message_too_long(bytes.as_slice()) {
            StreamAction::Stop(string_from(KEYSTREAM_STOP))
        } else { match decrypt(&state.e2ee_sec, bytes.as_slice()) {
            Err(e) => report("Couldn't decrypt: ", e),
            Ok(p) => {
                let text = string_from_utf8_lossy(p.as_slice());
                let mut v = chars_of("<");
                push_str_chars(&mut v, from.as_str());
                push_str_chars(&mut v, "> ");
                let t = trim_chars(&chars_of(text.as_str()));
                push_chars(&mut v, &t);
                StreamAction::Show(string_of(&v))
            },
        } },
    }
}

/// The report of `prefix` followed by `text`.
fn report(prefix: &str, text: String) -> (a: StreamAction)
    ensures
        a@ == StreamActionView::Report(prefix@ + text@),
{
    let mut v = chars_of(prefix);
    push_str_chars(&mut v, text.as_str());
    StreamAction::Report(string_of(&v))
}

/// The line that shows a message that could not be read (see
/// `malformed_preview_result`).
pub fn malformed_preview(message: &[u8]) -> (r: Result<String, String>)
    ensures
        crate::crypt::symmetric::text_result_view(r) == malformed_preview_result(message@),
{
    let preview = string_from_utf8_lossy(message);
    let text = preview.as_str();
    proof {
        vstd::utf8::encode_utf8_valid_utf8(text@);
    }
    let byte_len = text.as_bytes().len();
    if byte_len > 100 {
        if text.is_char_boundary(100) {
            let (head, _) = text.split_at(100);
            proof {
                vstd::utf8::encode_utf8_decode_utf8(head@);
            }
            let mut v = chars_of("[!Malformed message!]: ");
            push_str_chars(&mut v, head);
            push_str_chars(&mut v, "...");
            Ok(string_of(&v))
        } else {
            Err(crate::crypt::symmetric::string_from("byte index 100 is not a char boundary"))
        }
    } else {
        let mut v = chars_of("[!Malformed message!]: ");
        push_str_chars(&mut v, text);
        Ok(string_of(&v))
    }
}

/// The action for a message that could not be read (see `malformed_action`).
fn malformed(message: &[u8]) -> (a: StreamAction)
    ensures
        a@ == malformed_action(message@),
{
    match malformed_preview(message) {
        Ok(line) => StreamAction::Show(line),
        Err(e) => StreamAction::Stop(e),
    }
}

/// Handles a message received after the handshake: reads it under the session key
/// and acts on its code (see `stream_step`).
pub fn process_fctp_stream(state: &mut ClientState, message: &[u8]) -> (a: StreamAction)
    ensures
        (final(state)@, a@) == stream_step(old(state)@, message@),
{
    let session_key = state.session_key;
    match decapsulate_fctp_message(message, &session_key) {
        Err(_) => malformed(message),
        Ok(m) => match m.code {
            FctpCode::Message => {
                let a = chat_message(state, &m.from, &m.body);
                state.last_ack = true;
                a
            },
            FctpCode::Command => {
                state.last_ack = true;
                StreamAction::Show(join2("|SERVER| ", &chars_of(m.body.as_str())))
            },
            FctpCode::MethodNotAllowed => {
                state.last_ack = true;
                state.request_error = true;
                StreamAction::Show(join2("[!Client error!] ", &chars_of(m.body.as_str())))
            },
            FctpCode::InternalServerError => {
                state.last_ack = true;
                state.request_error = true;
                StreamAction::Show(join2("[!Server error!] ", &chars_of(m.body.as_str())))
            },
            FctpCode::Hello => {
                let id_text = crate::crypt::symmetric::string_from("id");
                if m.body == id_text {
                    set_id(state, m.to.as_str());
                    set_server_id(state, m.from.as_str());
                }
                StreamAction::Nothing
            },
            FctpCode::KeyRequest => {
                let trimmed = string_of(&trim_chars(&chars_of(m.body.as_str())));
                match base64_decode(trimmed.as_str()) {
                    Err(_) => StreamAction::Stop(crate::crypt::symmetric::string_from("Base64 decode failed")),
                    Ok(k) => {
                        if k.len() != 32 {
                            StreamAction::Stop(crate::crypt::symmetric::string_from("Invalid key length"))
                        } else {
                            let key = key_array(k.as_slice());
                            let recipient = get_current_recipient(state);
                            insert_pk_in_e2ee_key_table(state, recipient.as_str(), key);
                            state.last_ack = true;
                            StreamAction::Nothing
                        }
                    },
                }
            },
            FctpCode::Pong => StreamAction::Pong,
            _ => {
                let mut v = chars_of("[!Unsupported code!]: ");
                let name = code_name_string(m.code);
                push_str_chars(&mut v, name.as_str());
                push_str_chars(&mut v, "\nUpdate your client or contact server admin!");
                StreamAction::Show(string_of(&v))
            },
        },
    }
}

} // verus!
