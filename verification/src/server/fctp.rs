//! The protocol's messages as the server speaks them: the text encrypted under the
//! client's session key, and the commands that clients send.

use vstd::prelude::*;
use vstd::string::StringSliceAdditionalSpecFns;
use vstd::utf8::encode_utf8;

use crate::crypt::primitives::{aead_tag_len, aes_gcm_max_plaintext};
use crate::crypt::symmetric::{decrypt, decrypt_text_result, decrypt_text_stops, encrypt, is_text_encryption, law_text_roundtrip};
use crate::crypt::utils::base64_encodable;
use crate::fctp_text::{lemma_parse_message_text, message_chars, message_core, message_option_view, parse_plain, parse_plain_message};
use crate::server::fctp_client::{ClientInfo, ClientInfoView, Clients};
use crate::text::{chars_eq, chars_of, copy_range, is_whitespace, is_ws, nat_digits, no_newline, push_nat_digits, push_str_chars, string_of, trim, trim_chars, trim_start};

pub use crate::fctp_text::FctpMessage;

verus! {

/// The CR LF CR LF that ends a packet.
pub open spec fn blank_line_end() -> Seq<char> {
    seq!['\r', '\n', '\r', '\n']
}

/// Whether `packet` is what the server sends for `text` under `key`: the text form
/// of its encryption followed by CR LF CR LF, or nothing when AES-256-GCM refuses
/// a text that long.
pub open spec fn server_packet_ok(packet: Seq<char>, text: Seq<char>, key: Seq<u8>) -> bool {
    if encode_utf8(text).len() <= aes_gcm_max_plaintext() {
        &&& packet.len() >= 4
        &&& packet.skip(packet.len() - 4) == blank_line_end()
        &&& is_text_encryption(packet.take(packet.len() - 4), key, encode_utf8(text))
    } else {
        packet.len() == 0
    }
}

/// Writes a message (without the closing blank line) and encrypts it under the
/// session key into the text form, followed by CR LF CR LF (see `server_packet_ok`).
pub fn encapsulate_to_fctp(code: i32, from: &str, body: &str, to: &str, session_key: [u8; 32]) -> (out: String)
    requires
        base64_encodable(encode_utf8(message_core(code, from@, body@, to@)).len() + aead_tag_len()),
    ensures
        server_packet_ok(out@, message_core(code, from@, body@, to@), session_key@),
{
    let text = string_of(&message_chars(code, from, body, to, false));
    match encrypt(text.as_str(), &session_key) {
        Ok(encrypted) => {
            let mut v = chars_of(encrypted.as_str());
            push_str_chars(&mut v, "\r\n\r\n");
            proof {
                reveal_strlit("\r\n\r\n");
                assert(v@.take(v@.len() - 4) =~= encrypted@);
                assert(v@.skip(v@.len() - 4) =~= blank_line_end());
            }
            string_of(&v)
        },
        Err(_) => String::new(),
    }
}

/// What `decapsulate_fctp_message` reads from `msg` under `key`: the decrypted text,
/// parsed; `None` when it does not decrypt or parse.
pub open spec fn server_decapsulate(msg: Seq<char>, key: Seq<u8>) -> Option<(i32, Seq<char>, Seq<char>, Seq<char>)> {
    match decrypt_text_result(msg, key) {
        Ok(text) => parse_plain(text),
        Err(_) => None,
    }
}

/// Decrypts a message received under `session_key` and parses it (see
/// `server_decapsulate`). A nonce that is not 12 bytes long would stop the
/// program, so it is outside the inputs.
pub fn decapsulate_fctp_message(msg: &str, session_key: [u8; 32]) -> (r: Option<FctpMessage>)
    requires
        !decrypt_text_stops(msg@),
    ensures
        message_option_view(r) == server_decapsulate(msg@, session_key@),
{
    match decrypt(msg, &session_key) {
        Ok(decrypted) => parse_plain_message(decrypted.as_str()),
        Err(_) => None,
    }
}

/// Reading back what the server wrote, without its closing CR LF CR LF, under the
/// same key gives the code and the trimmed fields, and does not stop, when the fields
/// hold no line feed and the text was short enough for AES-256-GCM to encrypt (a
/// longer one gives no packet).
pub proof fn law_server_roundtrip(packet: Seq<char>, key: Seq<u8>, code: i32, from: Seq<char>, body: Seq<char>, to: Seq<char>)
    requires
        no_newline(from),
        no_newline(body),
        no_newline(to),
        encode_utf8(message_core(code, from, body, to)).len() <= aes_gcm_max_plaintext(),
        server_packet_ok(packet, message_core(code, from, body, to), key),
    ensures
        !decrypt_text_stops(packet.take(packet.len() - 4)),
        server_decapsulate(packet.take(packet.len() - 4), key) == Some((code, trim(from), trim(body), trim(to))),
{
    let text = message_core(code, from, body, to);
    lemma_parse_message_text(code, from, body, to);
    law_text_roundtrip(packet.take(packet.len() - 4), key, text);
}

/// Whether another client than `current_id` goes by the nickname `nick`.
pub open spec fn nick_taken(clients: Map<Seq<char>, ClientInfoView>, nick: Seq<char>, current_id: Seq<char>) -> bool {
    exists|id: Seq<char>| #[trigger] clients.contains_key(id) && id != current_id && clients[id].ext_session_username == nick
}

/// Whether another client than `current_id` goes by the nickname `nick`.
pub fn is_nick_taken(clients: &Clients, nick: &str, current_id: &str) -> (b: bool)
    ensures
        b == nick_taken(clients@, nick@, current_id@),
{
    let names = clients.names();
    let current = String::from_str(current_id);
    let wanted = String::from_str(nick);
    let mut i: usize = 0;
    while i < names.len()
        invariant
            i <= names@.len(),
            current@ == current_id@,
            wanted@ == nick@,
            forall|n: Seq<char>| clients@.contains_key(n) <==> exists|k: int| 0 <= k < names@.len() && #[trigger] names@[k]@ == n,
            forall|k: int| 0 <= k < i ==> !(#[trigger] names@[k]@ != current_id@ && clients@[names@[k]@].ext_session_username == nick@),
        decreases names.len() - i,
    {
        let name = &names[i];
        if !(*name == current) {
            match clients.get(name.as_str()) {
                Some(info) => {
                    if info.ext_session_username == wanted {
                        assert(clients@.contains_key(name@));
                        return true;
                    }
                },
                None => {
                    assert(exists|k: int| 0 <= k < names@.len() && #[trigger] names@[k]@ == name@);
                },
            }
        }
        i = i + 1;
    }
    assert forall|id: Seq<char>| #[trigger] clients@.contains_key(id) implies !(id != current_id@ && clients@[id].ext_session_username == nick@) by {
        let k = choose|k: int| 0 <= k < names@.len() && #[trigger] names@[k]@ == id;
        assert(!(names@[k]@ != current_id@ && clients@[names@[k]@].ext_session_username == nick@));
    }
    false
}

/// The index of the first white space in `s`, or its length.
pub open spec fn ws_index(s: Seq<char>) -> int
    decreases s.len(),
{
    if s.len() == 0 || is_ws(s[0]) {
        0
    } else {
        1 + ws_index(s.drop_first())
    }
}

/// `ws_index` is the first position of a white space, or the length.
pub proof fn lemma_ws_index(s: Seq<char>, m: int)
    requires
        0 <= m <= s.len(),
        forall|k: int| 0 <= k < m ==> !is_ws(#[trigger] s[k]),
        m == s.len() || is_ws(s[m]),
    ensures
        ws_index(s) == m,
    decreases s.len(),
{
    if s.len() > 0 && !is_ws(s[0]) {
        assert forall|k: int| 0 <= k < m - 1 implies !is_ws(#[trigger] s.drop_first()[k]) by {
            assert(s.drop_first()[k] == s[k + 1]);
        }
        lemma_ws_index(s.drop_first(), m - 1);
    } else if s.len() > 0 && m > 0 {
        assert(!is_ws(s[0]));
    }
}

/// The first word of `s`, as `split_whitespace` gives it, with the text after it;
/// `None` when `s` is all white space.
pub open spec fn first_word(s: Seq<char>) -> Option<(Seq<char>, Seq<char>)> {
    let t = trim_start(s);
    if t.len() == 0 {
        None
    } else {
        Some((t.take(ws_index(t)), t.skip(ws_index(t))))
    }
}

/// The first word of `v` and the text after it (see `first_word`).
pub fn first_word_chars(v: &Vec<char>) -> (r: Option<(Vec<char>, Vec<char>)>)
    ensures
        match first_word(v@) {
            None => r is None,
            Some((w, rest)) => r matches Some((x, y)) && x@ == w && y@ == rest,
        },
{
    let mut a: usize = 0;
    assert(v@.skip(0) =~= v@);
    while a < v.len() && is_whitespace(v[a])
        invariant
            a <= v.len(),
            trim_start(v@) == trim_start(v@.skip(a as int)),
        decreases v.len() - a,
    {
        assert(v@.skip(a as int).drop_first() =~= v@.skip(a + 1));
        a = a + 1;
    }
    let ghost t = v@.skip(a as int);
    assert(trim_start(t) == t);
    if a == v.len() {
        assert(t.len() == 0);
        return None;
    }
    let mut b: usize = a;
    while b < v.len() && !is_whitespace(v[b])
        invariant
            a <= b <= v.len(),
            t == v@.skip(a as int),
            forall|k: int| 0 <= k < b - a ==> !is_ws(#[trigger] t[k]),
        decreases v.len() - b,
    {
        assert(t[b - a] == v@[b as int]);
        b = b + 1;
    }
    proof {
        if b < v.len() {
            assert(t[b - a] == v@[b as int]);
        }
        lemma_ws_index(t, b - a);
    }
    let w = copy_range(v, a, b);
    let rest = copy_range(v, b, v.len());
    assert(w@ =~= t.take(b - a));
    assert(rest@ =~= t.skip(b - a));
    Some((w, rest))
}

/// Whether `char::is_alphanumeric` holds of a character.
pub uninterp spec fn char_alphanumeric(c: char) -> bool;

/// `char::is_alphanumeric`. Trusted: the result is named `char_alphanumeric`; for
/// ASCII it holds exactly of the letters and the digits, as the documentation of
/// `is_alphabetic` and `is_numeric` gives it.
#[verifier::external_body]
fn is_alphanumeric(c: char) -> (b: bool)
    ensures
        b == char_alphanumeric(c),
        (c as u32) < 128 ==> (b <==> (('0' <= c && c <= '9') || ('a' <= c && c <= 'z') || ('A' <= c && c <= 'Z'))),
{
    c.is_alphanumeric()
}

/// Whether a nickname holds only letters, digits, `_` and `-`.
pub open spec fn nick_chars_allowed(n: Seq<char>) -> bool {
    forall|i: int| 0 <= i < n.len() ==> char_alphanumeric(#[trigger] n[i]) || n[i] == '_' || n[i] == '-'
}

/// Whether `v` holds only letters, digits, `_` and `-`.
fn nick_chars_ok(v: &Vec<char>) -> (b: bool)
    ensures
        b == nick_chars_allowed(v@),
{
    let mut i: usize = 0;
    while i < v.len()
        invariant
            i <= v.len(),
            forall|k: int| 0 <= k < i ==> char_alphanumeric(#[trigger] v@[k]) || v@[k] == '_' || v@[k] == '-',
        decreases v.len() - i,
    {
        let c = v[i];
        if !(is_alphanumeric(c) || c == '_' || c == '-') {
            return false;
        }
        i = i + 1;
    }
    true
}

/// The command of a `Command` message's body: its first word, or nothing.
pub open spec fn command_word(body: Seq<char>) -> Seq<char> {
    match first_word(trim(body)) {
        Some((w, _)) => w,
        None => Seq::empty(),
    }
}

/// What a command does: the client's record afterwards, and the code and text of
/// the answer. `help` lists the commands; `whoami` tells the client its identifier,
/// nickname, the server's identifier and how long it has been connected; `setnick
/// <name>` takes a nickname that no other client has, of 3 to 20 bytes, of letters,
/// digits, `_` and `-`; anything else is unknown.
pub open spec fn command_result(
    body: Seq<char>,
    id: Seq<char>,
    info: ClientInfoView,
    clients: Map<Seq<char>, ClientInfoView>,
    server_id: Seq<char>,
    connected_secs: nat,
) -> (ClientInfoView, i32, Seq<char>) {
    let b = trim(body);
    let command = command_word(body);
    if command == "help"@ {
        (info, 201, "Welcome to server! ServerID: "@ + server_id + " / Available commands: help, whoami, setnick <name>"@)
    } else if command == "whoami"@ {
        (info, 201, "You are connected as: "@ + id + " / Your session nick: "@ + info.ext_session_username
            + " / ServerID: "@ + server_id + " / Connected for: "@ + nat_digits(connected_secs) + " seconds"@)
    } else if command == "setnick"@ {
        match first_word(first_word(b)->Some_0.1) {
            None => (info, 400, "Usage: setnick <new_name>"@),
            Some((n, _)) => if nick_taken(clients, n, id) {
                (info, 405, "Nick '"@ + n + "' is already taken. Choose a different one."@)
            } else if encode_utf8(n).len() < 3 || encode_utf8(n).len() > 20 {
                (info, 405, "Nick must be between 3 and 20 characters long."@)
            } else if !nick_chars_allowed(n) {
                (info, 405, "Nick can only contain letters, numbers, underscores and hyphens."@)
            } else {
                (ClientInfoView { ext_session_username: n, ..info }, 201, "Nick changed to: "@ + n + " / ServerID: "@ + server_id)
            },
        }
    } else {
        (info, 405, "Unknown command: "@ + b + ". Type 'help' for available commands."@)
    }
}

/// Answers a `Command` message of the client `id` (see `command_result`); a new
/// nickname goes into `client_info`.
pub fn command_handler(
    fctp_message: &FctpMessage,
    id: &str,
    client_info: &mut ClientInfo,
    clients: &Clients,
    server_id: &str,
    connected_secs: u64,
) -> (r: (i32, String))
    ensures
        (final(client_info)@, r.0, r.1@) == command_result(
            fctp_message.body@,
            id@,
            old(client_info)@,
            clients@,
            server_id@,
            connected_secs as nat,
        ),
{
    proof {
        reveal_strlit("help");
        reveal_strlit("whoami");
        reveal_strlit("setnick");
    }
    let b = trim_chars(&chars_of(fctp_message.body.as_str()));
    let first = first_word_chars(&b);
    let command = match &first {
        Some((w, _)) => copy_range(w, 0, w.len()),
        None => Vec::new(),
    };
    assert(command@ == command_word(fctp_message.body@)) by {
        if first is Some {
            assert(first->Some_0.0@.subrange(0, first->Some_0.0@.len() as int) =~= first->Some_0.0@);
        }
    }
    if chars_eq(&command, &chars_of("help")) {
        let mut v = chars_of("Welcome to server! ServerID: ");
        push_str_chars(&mut v, server_id);
        push_str_chars(&mut v, " / Available commands: help, whoami, setnick <name>");
        return (201, string_of(&v));
    }
    if chars_eq(&command, &chars_of("whoami")) {
        let mut v = chars_of("You are connected as: ");
        push_str_chars(&mut v, id);
        push_str_chars(&mut v, " / Your session nick: ");
        push_str_chars(&mut v, client_info.ext_session_username.as_str());
        push_str_chars(&mut v, " / ServerID: ");
        push_str_chars(&mut v, server_id);
        push_str_chars(&mut v, " / Connected for: ");
        push_nat_digits(&mut v, connected_secs);
        push_str_chars(&mut v, " seconds");
        return (201, string_of(&v));
    }
    if chars_eq(&command, &chars_of("setnick")) {
        let rest = match first {
            Some((_, r)) => r,
            None => Vec::new(),
        };
        match first_word_chars(&rest) {
            None => {
                return (400, String::from_str("Usage: setnick <new_name>"));
            },
            Some((n, _)) => {
                let new_name = string_of(&n);
                if is_nick_taken(clients, new_name.as_str(), id) {
                    let mut v = chars_of("Nick '");
                    push_chars_of(&mut v, &n);
                    push_str_chars(&mut v, "' is already taken. Choose a different one.");
                    return (405, string_of(&v));
                }
                let len = new_name.as_str().as_bytes().len();
                if len < 3 || len > 20 {
                    return (405, String::from_str("Nick must be between 3 and 20 characters long."));
                }
                if !nick_chars_ok(&n) {
                    return (405, String::from_str("Nick can only contain letters, numbers, underscores and hyphens."));
                }
                client_info.ext_session_username = new_name;
                let mut v = chars_of("Nick changed to: ");
                push_chars_of(&mut v, &n);
                push_str_chars(&mut v, " / ServerID: ");
                push_str_chars(&mut v, server_id);
                return (201, string_of(&v));
            },
        }
    }
    let mut v = chars_of("Unknown command: ");
    push_chars_of(&mut v, &b);
    push_str_chars(&mut v, ". Type 'help' for available commands.");
    (405, string_of(&v))
}

/// Appends the characters of `w` to `out`.
fn push_chars_of(out: &mut Vec<char>, w: &Vec<char>)
    ensures
        final(out)@ == old(out)@ + w@,
{
    crate::text::push_chars(out, w);
}

/// The packet that sends a message to a client, under the session key that the
/// server keeps for it (see `encapsulate_to_fctp`).
pub fn send_fctp_message(client_info: &ClientInfo, code: i32, from: &str, body: &str, to: &str) -> (out: String)
    requires
        base64_encodable(encode_utf8(message_core(code, from@, body@, to@)).len() + aead_tag_len()),
    ensures
        server_packet_ok(out@, message_core(code, from@, body@, to@), client_info@.conn_session_key),
{
    encapsulate_to_fctp(code, from, body, to, client_info.conn_session_key)
}

/// What a command answers: success (201) only for `help`, `whoami` and a `setnick`
/// that is carried out; every other answer leaves the client's record as it was. A
/// `setnick` is carried out only for a name of 3 to 20 bytes, of letters, digits,
/// `_` and `-`, that no other client has, and then sets exactly that name; a free
/// name of another length is refused with 405 and `Nick must be between 3 and 20
/// characters long.`
pub proof fn law_command_answer_code(
    body: Seq<char>,
    id: Seq<char>,
    info: ClientInfoView,
    clients: Map<Seq<char>, ClientInfoView>,
    server_id: Seq<char>,
    connected_secs: nat,
)
    ensures
        ({
            let (after, c, answer) = command_result(body, id, info, clients, server_id, connected_secs);
            let w = command_word(body);
            let name = first_word(first_word(trim(body))->Some_0.1);
            &&& c == 201 ==> w == "help"@ || w == "whoami"@ || w == "setnick"@
            &&& c != 201 ==> after == info
            &&& w == "setnick"@ && c == 201 ==> name is Some && ({
                let n = name->Some_0.0;
                &&& after == (ClientInfoView { ext_session_username: n, ..info })
                &&& 3 <= encode_utf8(n).len() <= 20
                &&& nick_chars_allowed(n)
                &&& !nick_taken(clients, n, id)
            })
            &&& w == "setnick"@ && name is Some && !nick_taken(clients, name->Some_0.0, id) && (encode_utf8(
                name->Some_0.0,
            ).len() < 3 || encode_utf8(name->Some_0.0).len() > 20) ==> c == 405 && answer
                == "Nick must be between 3 and 20 characters long."@
        }),
{
    reveal_strlit("help");
    reveal_strlit("whoami");
    reveal_strlit("setnick");
}

/// Once a client has taken a nickname with `setnick`, the same command from any
/// other connected client is refused, as the name is taken.
pub proof fn law_setnick_exclusive(
    body: Seq<char>,
    a: Seq<char>,
    b: Seq<char>,
    clients: Map<Seq<char>, ClientInfoView>,
    server_id: Seq<char>,
    secs_a: nat,
    secs_b: nat,
)
    requires
        clients.contains_key(a),
        clients.contains_key(b),
        a != b,
        command_word(body) == "setnick"@,
        command_result(body, a, clients[a], clients, server_id, secs_a).1 == 201,
    ensures
        ({
            let after = clients.insert(a, command_result(body, a, clients[a], clients, server_id, secs_a).0);
            command_result(body, b, after[b], after, server_id, secs_b).1 == 405
        }),
{
    reveal_strlit("help");
    reveal_strlit("whoami");
    reveal_strlit("setnick");
    let after = clients.insert(a, command_result(body, a, clients[a], clients, server_id, secs_a).0);
    let n = first_word(first_word(trim(body))->Some_0.1)->Some_0.0;
    assert(after.contains_key(a) && a != b && after[a].ext_session_username == n);
    assert(nick_taken(after, n, b));
}

} // verus!
