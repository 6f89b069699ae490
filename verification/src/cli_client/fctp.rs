//! The protocol's messages as the command-line client speaks them: plain text
//! with numeric codes.

use vstd::prelude::*;

use crate::fctp_text::{lemma_parse_message_text, message_chars, message_option_view, message_text, parse_plain, parse_plain_message};
use crate::protocol_utils::fctp_me::{get_id, set_id};
use crate::protocol_utils::session::{ClientState, ClientView};
use crate::text::{nat_digits, push_nat_digits, no_newline, chars_of, dec_i32, dec_i32_chars, is_whitespace, push_chars, push_str_chars, string_of, trim};
use crate::crypt::symmetric::string_from;

pub use crate::fctp_text::FctpMessage;
pub use crate::protocol_utils::fctp::{get_server_id, set_server_id};

verus! {

/// Reads a message text (see `parse_plain`).
pub fn decapsulate_fctp_message(msg: &str) -> (r: Option<FctpMessage>)
    ensures
        message_option_view(r) == parse_plain(msg@),
{
    parse_plain_message(msg)
}

/// Writes a message text: the protocol line, the code, the `From`, `Body` and `To`
/// lines, and the blank line that ends it.
pub fn encapsulate_to_fctp(code: i32, from: &str, body: &str, to: &str) -> (out: String)
    ensures
        out@ == message_text(code, from@, body@, to@),
{
    string_of(&message_chars(code, from, body, to, true))
}

/// Reading back a message text that `encapsulate_to_fctp` wrote gives the code and
/// the trimmed fields, when the fields hold no line feed.
pub proof fn law_cli_roundtrip(code: i32, from: Seq<char>, body: Seq<char>, to: Seq<char>)
    requires
        no_newline(from),
        no_newline(body),
        no_newline(to),
    ensures
        parse_plain(message_text(code, from, body, to)) == Some((code, trim(from), trim(body), trim(to))),
{
    lemma_parse_message_text(code, from, body, to);
}

/// The ping that the client sends every two seconds (code 10, body `ping`), with no
/// line feed after it.
pub fn ping_packet(state: &ClientState) -> (out: String)
    ensures
        out@ == message_text(10, state@.id, "ping"@, state@.server_id),
{
    encapsulate_to_fctp(10, state.id.as_str(), "ping", state.server_id.as_str())
}

/// How long the client waits for a pong before it says the server is not
/// responding, in milliseconds.
pub const PONG_TIMEOUT_MS: u64 = 5000;

/// One check of the pong monitor, `elapsed_ms` after the last pong: the line to
/// print once more than `PONG_TIMEOUT_MS` have passed.
pub fn pong_watch(elapsed_ms: u64) -> (r: Option<String>)
    ensures
        elapsed_ms <= PONG_TIMEOUT_MS ==> r is None,
        elapsed_ms > PONG_TIMEOUT_MS ==> (r matches Some(t) && t@ == "server is not responding, last pong was sent "@
            + nat_digits(elapsed_ms as nat) + " ms ago"@),
{
    if elapsed_ms > PONG_TIMEOUT_MS {
        let mut v = chars_of("server is not responding, last pong was sent ");
        push_nat_digits(&mut v, elapsed_ms);
        push_str_chars(&mut v, " ms ago");
        Some(string_of(&v))
    } else {
        None
    }
}

/// What the command-line client does with a message it received.
pub enum CliAction {
    /// Print the line.
    Print(String),
    /// Print the line on the error stream.
    PrintError(String),
    /// Note that the server answered a ping.
    Pong,
}

/// A `CliAction` as a value.
pub enum CliActionView {
    Print(Seq<char>),
    PrintError(Seq<char>),
    Pong,
}

impl View for CliAction {
    type V = CliActionView;

    open spec fn view(&self) -> CliActionView {
        match self {
            CliAction::Print(s) => CliActionView::Print(s@),
            CliAction::PrintError(s) => CliActionView::PrintError(s@),
            CliAction::Pong => CliActionView::Pong,
        }
    }
}

/// What a received message does to the session, and what the client prints: by
/// code, 200 is a user's message, 201 a server's, 405 and 505 errors, 900 with body
/// `id` gives the client's and the server's identifiers and prints the client's,
/// 11 answers a ping; other codes are unsupported; a text that does not parse is
/// printed as a malformed header.
pub open spec fn cli_stream_step(old: ClientView, message: Seq<char>) -> (ClientView, CliActionView) {
    match parse_plain(message) {
        None => (old, CliActionView::PrintError("[!Malformed header!]: "@ + message)),
        Some((code, from, body, to)) => if code == 200 {
            (old, CliActionView::Print("[Message received] <"@ + from + "> "@ + body))
        } else if code == 201 {
            (old, CliActionView::Print("SERVER: "@ + body))
        } else if code == 405 {
            (old, CliActionView::Print("[!cl!] "@ + body))
        } else if code == 505 {
            (old, CliActionView::Print("[!sv!] "@ + body))
        } else if code == 900 {
            let new = if body == "id"@ {
                ClientView { id: to, server_id: from, ..old }
            } else {
                old
            };
            (new, CliActionView::Print("DEBUG: ID: "@ + new.id))
        } else if code == 11 {
            (old, CliActionView::Pong)
        } else {
            (old, CliActionView::Print(
                "[!Unsupported code!]: "@ + dec_i32(code)
                    + "\n !Update your client software or ask server administrator to update his server software!"@,
            ))
        },
    }
}

/// What the command-line client prints for a message text written with `code`,
/// `from`, `body`, `to` (fields without line feeds), by code: a client-side error
/// (405) as `[!cl!] ` and the body, a server-side error (505) as `[!sv!] `, a
/// server's message (201) as `SERVER: `, a user's message (200) with its sender; a
/// pong (11) is noted; 900 with body `id` takes the identifiers and prints the
/// client's; only the other codes are unsupported. Only 900 changes the session.
pub proof fn law_cli_reply_by_code(old: ClientView, code: i32, from: Seq<char>, body: Seq<char>, to: Seq<char>)
    requires
        no_newline(from),
        no_newline(body),
        no_newline(to),
    ensures
        ({
            let (new, a) = cli_stream_step(old, message_text(code, from, body, to));
            &&& code == 405 ==> new == old && a == CliActionView::Print("[!cl!] "@ + trim(body))
            &&& code == 505 ==> new == old && a == CliActionView::Print("[!sv!] "@ + trim(body))
            &&& code == 201 ==> new == old && a == CliActionView::Print("SERVER: "@ + trim(body))
            &&& code == 200 ==> new == old && a == CliActionView::Print(
                "[Message received] <"@ + trim(from) + "> "@ + trim(body),
            )
            &&& code == 11 ==> new == old && a == CliActionView::Pong
            &&& code == 900 && trim(body) == "id"@ ==> new == (ClientView { id: trim(to), server_id: trim(from), ..old })
                && a == CliActionView::Print("DEBUG: ID: "@ + trim(to))
            &&& code != 200 && code != 201 && code != 405 && code != 505 && code != 11 && code != 900 ==> new == old
                && a == CliActionView::Print(
                "[!Unsupported code!]: "@ + dec_i32(code)
                    + "\n !Update your client software or ask server administrator to update his server software!"@,
            )
        }),
{
    law_cli_roundtrip(code, from, body, to);
}

/// Handles a message received from the server (see `cli_stream_step`).
pub fn process_fctp_stream(state: &mut ClientState, message: &str) -> (a: CliAction)
    ensures
        (final(state)@, a@) == cli_stream_step(old(state)@, message@),
{
    match decapsulate_fctp_message(message) {
        None => {
            let mut v = chars_of("[!Malformed header!]: ");
            push_str_chars(&mut v, message);
            CliAction::PrintError(string_of(&v))
        },
        Some(msg) => {
            if msg.code == 200 {
                let mut v = chars_of("[Message received] <");
                push_str_chars(&mut v, msg.from.as_str());
                push_str_chars(&mut v, "> ");
                push_str_chars(&mut v, msg.body.as_str());
                CliAction::Print(string_of(&v))
            } else if msg.code == 201 {
                let mut v = chars_of("SERVER: ");
                push_str_chars(&mut v, msg.body.as_str());
                CliAction::Print(string_of(&v))
            } else if msg.code == 405 {
                let mut v = chars_of("[!cl!] ");
                push_str_chars(&mut v, msg.body.as_str());
                CliAction::Print(string_of(&v))
            } else if msg.code == 505 {
                let mut v = chars_of("[!sv!] ");
                push_str_chars(&mut v, msg.body.as_str());
                CliAction::Print(string_of(&v))
            } else if msg.code == 900 {
                if msg.body == string_from("id") {
                    set_id(state, msg.to.as_str());
                    set_server_id(state, msg.from.as_str());
                }
                let id = get_id(state);
                let mut v = chars_of("DEBUG: ID: ");
                push_str_chars(&mut v, id.as_str());
                CliAction::Print(string_of(&v))
            } else if msg.code == 11 {
                CliAction::Pong
            } else {
                let mut v = chars_of("[!Unsupported code!]: ");
                push_chars(&mut v, &dec_i32_chars(msg.code));
                push_str_chars(
                    &mut v,
                    "\n !Update your client software or ask server administrator to update his server software!",
                );
                CliAction::Print(string_of(&v))
            }
        },
    }
}

/// Whether every character of `s` is whitespace.
pub open spec fn is_blank(s: Seq<char>) -> bool {
    trim(s).len() == 0
}

/// One line read from the server, added to the message being glued: a blank line
/// after some text ends the message, whose last line feed becomes the CR LF CR LF
/// that ends a message, and starts a new one; any other line is added with a line
/// feed after it. Gives the glued text and the message that the line ended.
pub open spec fn glue_step(message: Seq<char>, line: Seq<char>) -> (Seq<char>, Option<Seq<char>>) {
    if is_blank(line) && message.len() > 0 {
        let done = if message.last() == '\n' {
            message.drop_last() + seq!['\r', '\n', '\r', '\n']
        } else {
            message
        };
        (Seq::empty(), Some(done))
    } else {
        (message + line + seq!['\n'], None)
    }
}

/// The view of an optional `String`.
pub open spec fn string_option_view(r: Option<String>) -> Option<Seq<char>> {
    match r {
        Some(s) => Some(s@),
        None => None,
    }
}

/// Adds a line read from the server to the message being glued (see `glue_step`).
pub fn glue_line(message: &mut String, line: &str) -> (r: Option<String>)
    ensures
        (final(message)@, string_option_view(r)) == glue_step(old(message)@, line@),
{
    let l = chars_of(line);
    let t = crate::text::trim_chars(&l);
    let m = chars_of(message.as_str());
    if t.len() == 0 && m.len() > 0 {
        let mut done = m;
        if done[done.len() - 1] == '\n' {
            done.pop();
            push_str_chars(&mut done, "\r\n\r\n");
            proof {
                reveal_strlit("\r\n\r\n");
            }
        }
        *message = String::new();
        Some(string_of(&done))
    } else {
        let mut v = m;
        push_chars(&mut v, &l);
        push_str_chars(&mut v, "\n");
        proof {
            reveal_strlit("\n");
        }
        *message = string_of(&v);
        None
    }
}

} // verus!
