//! The desktop client's connection logic: reassembling the server's frames from
//! the bytes read, the control messages of the writer, the user's commands, and
//! the session's reset on disconnection.

use vstd::prelude::*;

use vstd::string::StringSliceAdditionalSpecFns;
use vstd::utf8::encode_utf8;

use crate::crypt::asymmetric::{encrypt, is_asymmetric_encryption, lemma_encryption_len};
use crate::crypt::primitives::{aes_gcm_max_plaintext, xchacha_accepts, xchacha_keystream_stops};
use crate::fctp_text::{lemma_base64_text_len, lemma_message_text_len, lemma_trim_base64};
use crate::crypt::symmetric::{be32, be32_value, binary_frame, is_binary_encryption, lemma_be32, string_from};
use crate::crypt::utils::{base64_encodable, base64_encode, base64_standard_encode};
use crate::protocol_utils::fctp::{
    encapsulate_to_fctp, process_fctp_stream, quoted, set_current_recipient, stream_step, wire_text,
    FctpCode, FctpMessage, StreamAction,
};
use crate::protocol_utils::fctp_me::get_id;
use crate::protocol_utils::fctp_secure::empty_body_len;
use crate::protocol_utils::fctp_secure::{
    handle_handshake_message, handshake_step_result, has_pk_in_e2ee_key_table, get_pk_from_e2ee_key_table,
    step_view, HandshakeStep,
};
use crate::protocol_utils::session::{is_zero_key, zero_key, ClientState, ClientView};
use crate::text::{push_chars, push_str_chars};
use crate::crypt::utils::{string_from_utf8_lossy, utf8_lossy};
use crate::text::{chars_of, lemma_next_line_shrinks, nat_digits, next_line, push_nat_digits, string_of, take_line, trim, trim_chars};

verus! {

/// The size of one read from the connection.
pub const BUFFER_SIZE: usize = 8192;

/// The most bytes that may wait for the rest of a frame, and the longest ciphertext
/// a frame may announce (four reads).
pub const MAX_PENDING: usize = 32768;

/// How often the client pings the server once the session key is set, in seconds.
pub const PING_INTERVAL_SECS: u64 = 120;

/// How long the client waits for a pong before it says the server is not
/// responding, in seconds.
pub const PONG_TIMEOUT_SECS: u64 = 240;

/// What the pong monitor does at one of its checks.
pub enum PongWatch {
    /// No session yet: the time of the last pong starts again from now.
    Reset,
    /// The server is late: the line to print.
    Late(String),
    /// Nothing to do.
    Fine,
}

/// One check of the pong monitor, `elapsed_ms` after the last pong: before the
/// session key, start again; after `PONG_TIMEOUT_SECS` whole seconds, `Server not
/// responding, last pong: <ms> ms ago`.
pub fn pong_watch(state: &ClientState, elapsed_ms: u64) -> (w: PongWatch)
    ensures
        state@.session_key == zero_key() ==> w is Reset,
        state@.session_key != zero_key() && elapsed_ms / 1000 > PONG_TIMEOUT_SECS ==> (w matches PongWatch::Late(t)
            && t@ == "Server not responding, last pong: "@ + nat_digits(elapsed_ms as nat) + " ms ago"@),
        state@.session_key != zero_key() && elapsed_ms / 1000 <= PONG_TIMEOUT_SECS ==> w is Fine,
{
    if is_zero_key(&state.session_key) {
        PongWatch::Reset
    } else if elapsed_ms / 1000 > PONG_TIMEOUT_SECS {
        let mut v = chars_of("Server not responding, last pong: ");
        push_nat_digits(&mut v, elapsed_ms);
        push_str_chars(&mut v, " ms ago");
        PongWatch::Late(string_of(&v))
    } else {
        PongWatch::Fine
    }
}

/// How the bytes waiting in `buffer` split into complete frames: each frame is the
/// four-byte big-endian ciphertext length, the ciphertext and the 12-byte nonce.
/// Gives the frames, the bytes left waiting, the length announced by those bytes
/// (once four bytes are there), and the announced length that was too long, which
/// drops everything that waited.
pub open spec fn drain_frames(buffer: Seq<u8>) -> (Seq<Seq<u8>>, Seq<u8>, Option<nat>, Option<nat>)
    decreases buffer.len(),
{
    if buffer.len() < 4 {
        (Seq::empty(), buffer, None, None)
    } else {
        let len = be32_value(buffer.take(4));
        if len > MAX_PENDING {
            (Seq::empty(), Seq::empty(), None, Some(len))
        } else if buffer.len() >= len + 16 {
            let total: int = len as int + 16;
            let rest = drain_frames(buffer.skip(total));
            (seq![buffer.take(total)] + rest.0, rest.1, rest.2, rest.3)
        } else {
            (Seq::empty(), buffer, Some(len), None)
        }
    }
}

/// The bytes read from the server after the handshake, waiting to form frames.
pub struct FrameReader {
    buffer: Vec<u8>,
    expecting: Option<usize>,
}

impl FrameReader {
    /// The length the reader expects is the one announced by the waiting bytes, and
    /// nothing waiting holds a complete frame.
    #[verifier::type_invariant]
    spec fn consistent(self) -> bool {
        let d = drain_frames(self.buffer@);
        &&& d.0.len() == 0
        &&& d.1 == self.buffer@
        &&& d.3 is None
        &&& self.buffer@.len() <= MAX_PENDING
        &&& match self.expecting {
            Some(l) => d.2 == Some(l as nat),
            None => d.2 is None,
        }
    }

    /// The bytes that wait for the rest of a frame.
    pub closed spec fn pending(self) -> Seq<u8> {
        self.buffer@
    }
}

/// What reading one chunk gives: the complete frames, in order, and the lines to
/// report on the error output.
pub struct ReadOutcome {
    pub frames: Vec<Vec<u8>>,
    pub reports: Vec<String>,
}

/// What adding `chunk` to the waiting bytes `pending` gives: the frames, the bytes
/// left waiting, and the reports. More than `MAX_PENDING` bytes together are
/// dropped with `Message buffer overflow, clearing`; an announced length above
/// `MAX_PENDING` drops everything with `Invalid message length: <len>`.
pub open spec fn read_step(pending: Seq<u8>, chunk: Seq<u8>) -> (Seq<Seq<u8>>, Seq<u8>, Seq<Seq<char>>) {
    let all = pending + chunk;
    if all.len() > MAX_PENDING {
        (Seq::empty(), Seq::empty(), seq!["Message buffer overflow, clearing"@])
    } else {
        let d = drain_frames(all);
        match d.3 {
            Some(len) => (d.0, Seq::empty(), seq!["Invalid message length: "@ + nat_digits(len)]),
            None => (d.0, d.1, Seq::empty()),
        }
    }
}

/// A binary frame of a ciphertext no longer than `MAX_PENDING` comes out whole
/// however the bytes are split between two reads: the first read leaves what it got
/// waiting and gives no frame, the second gives the frame and leaves nothing.
pub proof fn law_frame_reassembly(ciphertext: Seq<u8>, nonce: Seq<u8>, k: int)
    requires
        ciphertext.len() + 16 <= MAX_PENDING,
        nonce.len() == 12,
        0 <= k < binary_frame(ciphertext, nonce).len(),
    ensures
        ({
            let f = binary_frame(ciphertext, nonce);
            &&& read_step(Seq::empty(), f.take(k)) == (Seq::<Seq<u8>>::empty(), f.take(k), Seq::<Seq<char>>::empty())
            &&& read_step(f.take(k), f.skip(k)) == (seq![f], Seq::<u8>::empty(), Seq::<Seq<char>>::empty())
        }),
{
    let f = binary_frame(ciphertext, nonce);
    let n = ciphertext.len();
    lemma_be32(n as nat);
    assert(f.take(4) =~= be32(n as nat));
    assert(f.len() == n + 16);
    let first = f.take(k);
    assert(Seq::<u8>::empty() + first =~= first);
    if k >= 4 {
        assert(first.take(4) =~= f.take(4));
    }
    assert(first + f.skip(k) =~= f);
    assert(f.skip(n as int + 16) =~= Seq::<u8>::empty());
    assert(f.take(n as int + 16) =~= f);
    assert(drain_frames(Seq::<u8>::empty()) == (Seq::<Seq<u8>>::empty(), Seq::<u8>::empty(), Option::<nat>::None, Option::<nat>::None));
    assert(seq![f] + Seq::<Seq<u8>>::empty() =~= seq![f]);
}

/// A complete frame at the front of the waiting bytes comes out as it is, and what
/// follows it is split as it would be alone.
pub proof fn lemma_drain_frame_then(ciphertext: Seq<u8>, nonce: Seq<u8>, rest: Seq<u8>)
    requires
        ciphertext.len() + 16 <= MAX_PENDING,
        nonce.len() == 12,
    ensures
        ({
            let f = binary_frame(ciphertext, nonce);
            let d = drain_frames(rest);
            drain_frames(f + rest) == (seq![f] + d.0, d.1, d.2, d.3)
        }),
{
    let f = binary_frame(ciphertext, nonce);
    let n = ciphertext.len();
    lemma_be32(n as nat);
    let all = f + rest;
    assert(all.take(4) =~= be32(n as nat));
    assert(all.take(n as int + 16) =~= f);
    assert(all.skip(n as int + 16) =~= rest);
}

/// Bytes that stop short of the end of a frame form no frame and all wait; once the
/// four length bytes are there, they announce the frame's ciphertext length.
pub proof fn lemma_drain_partial_frame(ciphertext: Seq<u8>, nonce: Seq<u8>, k: int)
    requires
        ciphertext.len() + 16 <= MAX_PENDING,
        nonce.len() == 12,
        0 <= k < binary_frame(ciphertext, nonce).len(),
    ensures
        ({
            let f = binary_frame(ciphertext, nonce);
            drain_frames(f.take(k)) == (
                Seq::<Seq<u8>>::empty(),
                f.take(k),
                if k >= 4 { Some(ciphertext.len()) } else { None::<nat> },
                None::<nat>,
            )
        }),
{
    let f = binary_frame(ciphertext, nonce);
    let n = ciphertext.len();
    lemma_be32(n as nat);
    if k >= 4 {
        assert(f.take(k).take(4) =~= be32(n as nat));
    }
}

/// Two frames that follow each other come out in order however the second is split
/// between two reads: the first read gives the first frame and keeps the start of
/// the second waiting; the second read gives the second frame and leaves nothing.
pub proof fn law_consecutive_frames_reassembly(c1: Seq<u8>, n1: Seq<u8>, c2: Seq<u8>, n2: Seq<u8>, k: int)
    requires
        c1.len() + 16 <= MAX_PENDING,
        c2.len() + 16 <= MAX_PENDING,
        n1.len() == 12,
        n2.len() == 12,
        0 <= k < binary_frame(c2, n2).len(),
        binary_frame(c1, n1).len() + k <= MAX_PENDING,
    ensures
        ({
            let f1 = binary_frame(c1, n1);
            let f2 = binary_frame(c2, n2);
            &&& read_step(Seq::empty(), f1 + f2.take(k)) == (seq![f1], f2.take(k), Seq::<Seq<char>>::empty())
            &&& read_step(f2.take(k), f2.skip(k)) == (seq![f2], Seq::<u8>::empty(), Seq::<Seq<char>>::empty())
        }),
{
    let f1 = binary_frame(c1, n1);
    let f2 = binary_frame(c2, n2);
    lemma_drain_frame_then(c1, n1, f2.take(k));
    lemma_drain_partial_frame(c2, n2, k);
    assert(Seq::<u8>::empty() + (f1 + f2.take(k)) =~= f1 + f2.take(k));
    assert(seq![f1] + Seq::<Seq<u8>>::empty() =~= seq![f1]);
    law_frame_reassembly(c2, n2, k);
}

/// The frames as values.
pub open spec fn frames_view(frames: Seq<Vec<u8>>) -> Seq<Seq<u8>> {
    frames.map_values(|f: Vec<u8>| f@)
}

/// The reports as values.
pub open spec fn reports_view(reports: Seq<String>) -> Seq<Seq<char>> {
    reports.map_values(|r: String| r@)
}

/// The bytes `v[lo..hi]` as a new vector.
fn copy_bytes(v: &Vec<u8>, lo: usize, hi: usize) -> (out: Vec<u8>)
    requires
        lo <= hi <= v.len(),
    ensures
        out@ == v@.subrange(lo as int, hi as int),
{
    let out = vstd::slice::slice_to_vec(vstd::slice::slice_subrange(v.as_slice(), lo, hi));
    out
}

/// The big-endian number in the first four bytes of `v`.
fn read_len(v: &Vec<u8>) -> (len: u64)
    requires
        v.len() >= 4,
    ensures
        len == be32_value(v@.take(4)),
{
    (v[0] as u64) * 0x100_0000 + (v[1] as u64) * 0x1_0000 + (v[2] as u64) * 0x100 + (v[3] as u64)
}

impl FrameReader {
    /// A reader with nothing waiting.
    pub fn new() -> (r: Self)
        ensures
            r.pending() == Seq::<u8>::empty(),
    {
        FrameReader { buffer: Vec::new(), expecting: None }
    }

    /// Adds the bytes of one read and takes out the complete frames (see `read_step`).
    pub fn read(&mut self, chunk: &[u8]) -> (out: ReadOutcome)
        ensures
            (frames_view(out.frames@), final(self).pending(), reports_view(out.reports@)) == read_step(
                old(self).pending(),
                chunk@,
            ),
    {
        proof {
            use_type_invariant(&*self);
        }
        let mut fresh = FrameReader::new();
        std::mem::swap(self, &mut fresh);
        let FrameReader { mut buffer, mut expecting } = fresh;
        buffer.extend_from_slice(chunk);
        let ghost all = old(self).pending() + chunk@;
        assert(buffer@ =~= all);
        let mut frames: Vec<Vec<u8>> = Vec::new();
        let mut reports: Vec<String> = Vec::new();
        if buffer.len() > MAX_PENDING {
            reports.push(string_from("Message buffer overflow, clearing"));
            assert(reports_view(reports@) =~= seq!["Message buffer overflow, clearing"@]);
            assert(frames_view(frames@) =~= Seq::<Seq<u8>>::empty());
            return ReadOutcome { frames, reports };
        }
        let ghost d_all = drain_frames(all);
        loop
            invariant_except_break
                frames_view(frames@) + drain_frames(buffer@).0 == d_all.0,
                drain_frames(buffer@).1 == d_all.1,
                drain_frames(buffer@).2 == d_all.2,
                drain_frames(buffer@).3 == d_all.3,
                expecting matches Some(l) ==> buffer@.len() >= 4 && l == be32_value(buffer@.take(4)) && l <= MAX_PENDING,
                buffer.len() <= MAX_PENDING,
                reports@.len() == 0,
            ensures
                drain_frames(buffer@).0.len() == 0,
                drain_frames(buffer@).1 == buffer@,
                drain_frames(buffer@).3 is None,
                buffer.len() <= MAX_PENDING,
                match expecting {
                    Some(l) => drain_frames(buffer@).2 == Some(l as nat),
                    None => drain_frames(buffer@).2 is None,
                },
                frames_view(frames@) == d_all.0,
                match d_all.3 {
                    Some(len) => buffer@.len() == 0 && expecting is None && reports_view(reports@) == seq!["Invalid message length: "@ + nat_digits(len)],
                    None => buffer@ == d_all.1 && reports@.len() == 0 && drain_frames(buffer@).3 is None
                        && match expecting {
                            Some(l) => d_all.2 == Some(l as nat),
                            None => d_all.2 is None,
                        },
                },
            decreases buffer.len(),
        {
            if buffer.len() < 4 {
                assert(frames_view(frames@) + drain_frames(buffer@).0 =~= frames_view(frames@));
                assert(expecting is None);
                break;
            }
            let len = match expecting {
                Some(l) => l as u64,
                None => {
                    let l = read_len(&buffer);
                    if l > MAX_PENDING as u64 {
                        assert(frames_view(frames@) + drain_frames(buffer@).0 =~= frames_view(frames@));
                        let mut text = chars_of("Invalid message length: ");
                        push_nat_digits(&mut text, l);
                        buffer = Vec::new();
                        expecting = None;
                        reports.push(string_of(&text));
                        assert(reports_view(reports@) =~= seq!["Invalid message length: "@ + nat_digits(l as nat)]);
                        break;
                    }
                    l
                },
            };
            let l = len as usize;
            expecting = Some(l);
            let total = 4 + l + 12;
            if buffer.len() >= total {
                let frame = copy_bytes(&buffer, 0, total);
                let rest = copy_bytes(&buffer, total, buffer.len());
                proof {
                    assert(frame@ =~= buffer@.take(total as int));
                    assert(rest@ =~= buffer@.skip(total as int));
                    assert(frames_view(frames@.push(frame)) =~= frames_view(frames@).push(frame@));
                    assert(drain_frames(buffer@).0 =~= seq![frame@] + drain_frames(rest@).0);
                    assert(frames_view(frames@).push(frame@) + drain_frames(rest@).0 =~= frames_view(frames@) + drain_frames(buffer@).0);
                }
                frames.push(frame);
                buffer = rest;
                expecting = None;
            } else {
                assert(frames_view(frames@) + drain_frames(buffer@).0 =~= frames_view(frames@));
                break;
            }
        }
        *self = FrameReader { buffer, expecting };
        ReadOutcome { frames, reports }
    }
}

/// Whether `t` holds a blank line, CR LF CR LF.
pub open spec fn holds_blank_line(t: Seq<char>) -> bool {
    exists|i: int| 0 <= i && i + 4 <= t.len() && #[trigger] t.subrange(i, i + 4) == seq!['\r', '\n', '\r', '\n']
}

/// The first line of `t`, trimmed, that is not empty once trimmed.
pub open spec fn first_filled_line(t: Seq<char>) -> Option<Seq<char>>
    decreases t.len(),
{
    match next_line(t) {
        None => None,
        Some((line, rest)) => if trim(line).len() > 0 {
            Some(trim(line))
        } else if rest.len() < t.len() {
            first_filled_line(rest)
        } else {
            None
        },
    }
}

/// The line that a handshake-phase read carries: when its lossy text holds a blank
/// line, the first line that is not empty once trimmed, trimmed.
pub open spec fn handshake_line_of(chunk: Seq<u8>) -> Option<Seq<char>> {
    let t = utf8_lossy(chunk);
    if holds_blank_line(t) {
        first_filled_line(t)
    } else {
        None
    }
}

/// Whether `v` holds CR LF CR LF.
fn has_blank_line(v: &Vec<char>) -> (b: bool)
    ensures
        b == holds_blank_line(v@),
{
    let mut i: usize = 0;
    while i < v.len() && v.len() - i >= 4
        invariant
            i <= v.len(),
            forall|k: int| 0 <= k < i ==> #[trigger] v@.subrange(k, k + 4) != seq!['\r', '\n', '\r', '\n'],
        decreases v.len() - i,
    {
        if v[i] == '\r' && v[i + 1] == '\n' && v[i + 2] == '\r' && v[i + 3] == '\n' {
            assert(v@.subrange(i as int, i + 4) =~= seq!['\r', '\n', '\r', '\n']);
            return true;
        }
        assert(v@.subrange(i as int, i + 4)[0] == v@[i as int]);
        assert(v@.subrange(i as int, i + 4)[1] == v@[i + 1]);
        assert(v@.subrange(i as int, i + 4)[2] == v@[i + 2]);
        assert(v@.subrange(i as int, i + 4)[3] == v@[i + 3]);
        i = i + 1;
    }
    assert forall|k: int| 0 <= k && k + 4 <= v@.len() implies #[trigger] v@.subrange(k, k + 4) != seq!['\r', '\n', '\r', '\n'] by {
        assert(k < i);
    }
    false
}

/// The line that a handshake-phase read carries (see `handshake_line_of`).
pub fn handshake_line(chunk: &[u8]) -> (r: Option<String>)
    ensures
        match handshake_line_of(chunk@) {
            None => r is None,
            Some(l) => r matches Some(s) && s@ == l,
        },
{
    let text = string_from_utf8_lossy(chunk);
    let v = chars_of(text.as_str());
    if !has_blank_line(&v) {
        return None;
    }
    let mut pos: usize = 0;
    assert(v@.skip(0) =~= v@);
    while pos < v.len()
        invariant
            pos <= v.len(),
            v@ == utf8_lossy(chunk@),
            holds_blank_line(v@),
            first_filled_line(v@) == first_filled_line(v@.skip(pos as int)),
        decreases v.len() - pos,
    {
        proof {
            lemma_next_line_shrinks(v@.skip(pos as int));
        }
        let (line, np) = match take_line(&v, pos) {
            Some(x) => x,
            None => {
                assert(false);
                return None;
            },
        };
        let trimmed = trim_chars(&line);
        if trimmed.len() > 0 {
            return Some(string_of(&trimmed));
        }
        assert(v@.skip(np as int).len() == v.len() - np);
        assert(np > pos);
        pos = np;
    }
    assert(v@.skip(pos as int) =~= Seq::<char>::empty());
    None
}

/// What the client does with what the server sent.
pub enum ServerMessage {
    /// Nothing was sent.
    Ignored,
    /// A handshake-phase line: the step it asks for, or why it cannot be read.
    Handshake(Result<HandshakeStep, String>),
    /// A message after the handshake, and what to do with it.
    Stream(StreamAction),
}

/// Routes what the server sent: nothing for no bytes; before a session key is set,
/// a handshake line; afterwards, an encrypted message, which updates the session.
pub fn handle_server_message(state: &mut ClientState, data: &[u8]) -> (r: ServerMessage)
    ensures
        data@.len() == 0 ==> r is Ignored && final(state)@ == old(state)@,
        data@.len() > 0 && old(state)@.session_key == zero_key() ==> (r matches ServerMessage::Handshake(h)
            && step_view(h) == handshake_step_result(old(state)@.exchange_pub, data@) && final(state)@ == old(state)@),
        data@.len() > 0 && old(state)@.session_key != zero_key() ==> (r matches ServerMessage::Stream(a)
            && (final(state)@, a@) == stream_step(old(state)@, data@)),
{
    if data.len() == 0 {
        return ServerMessage::Ignored;
    }
    if is_zero_key(&state.session_key) {
        ServerMessage::Handshake(handle_handshake_message(state, data))
    } else {
        ServerMessage::Stream(process_fctp_stream(state, data))
    }
}

/// What the writer does with a message from the channel.
pub enum WriterCommand {
    /// The user confirmed the server's fingerprint.
    ConfirmFingerprint,
    /// Disconnect: the user asked to, or rejected the fingerprint.
    Disconnect,
    /// Send the bytes to the server.
    Send,
}

/// Whether `msg` holds exactly the bytes of `text`.
fn bytes_are(msg: &[u8], text: &str) -> (b: bool)
    ensures
        b == (msg@ == text.spec_bytes()),
{
    let t = text.as_bytes();
    if msg.len() != t.len() {
        return false;
    }
    let mut i: usize = 0;
    while i < msg.len()
        invariant
            i <= msg@.len(),
            msg@.len() == t@.len(),
            t@ == text.spec_bytes(),
            forall|k: int| 0 <= k < i ==> msg@[k] == t@[k],
        decreases msg.len() - i,
    {
        if msg[i] != t[i] {
            assert(msg@[i as int] != t@[i as int]);
            return false;
        }
        i = i + 1;
    }
    assert(msg@ =~= t@);
    true
}

/// Reads a message from the channel to the writer: `USER::FP_MATCH` confirms the
/// fingerprint, `USER::DISCONNECT` and `USER::FP_MISMATCH` disconnect, anything
/// else is sent to the server.
pub fn writer_command(msg: &[u8]) -> (c: WriterCommand)
    ensures
        msg@ == "USER::FP_MATCH".spec_bytes() ==> c is ConfirmFingerprint,
        msg@ != "USER::FP_MATCH".spec_bytes() && (msg@ == "USER::DISCONNECT".spec_bytes() || msg@
            == "USER::FP_MISMATCH".spec_bytes()) ==> c is Disconnect,
        msg@ != "USER::FP_MATCH".spec_bytes() && msg@ != "USER::DISCONNECT".spec_bytes() && msg@
            != "USER::FP_MISMATCH".spec_bytes() ==> c is Send,
{
    if bytes_are(msg, "USER::FP_MATCH") {
        WriterCommand::ConfirmFingerprint
    } else if bytes_are(msg, "USER::DISCONNECT") || bytes_are(msg, "USER::FP_MISMATCH") {
        WriterCommand::Disconnect
    } else {
        WriterCommand::Send
    }
}

/// Whether a status from the user interface is one that goes to the writer:
/// `USER::FP_MATCH`, `USER::DISCONNECT` or `USER::FP_MISMATCH`.
pub fn is_status_command(input: &str) -> (b: bool)
    ensures
        b == (input@ == "USER::FP_MATCH"@ || input@ == "USER::DISCONNECT"@ || input@ == "USER::FP_MISMATCH"@),
{
    let v = chars_of(input);
    crate::text::chars_eq(&v, &chars_of("USER::FP_MATCH")) || crate::text::chars_eq(&v, &chars_of("USER::DISCONNECT"))
        || crate::text::chars_eq(&v, &chars_of("USER::FP_MISMATCH"))
}

/// Forgets the connection's keys: the session key, the key-exchange pair and the
/// recipients' public keys.
pub fn cleanup_connection(state: &mut ClientState)
    ensures
        final(state)@ == (ClientView {
            session_key: zero_key(),
            exchange_pub: zero_key(),
            exchange_sec: zero_key(),
            key_table: Map::empty(),
            ..old(state)@
        }),
{
    state.session_key = [0u8; 32];
    state.exchange_pub = [0u8; 32];
    state.exchange_sec = [0u8; 32];
    assert(state.session_key@ =~= zero_key());
    assert(state.exchange_pub@ =~= zero_key());
    assert(state.exchange_sec@ =~= zero_key());
    state.key_table.clear();
}

/// `s` without its leading `/` characters.
pub open spec fn drop_slashes(s: Seq<char>) -> Seq<char>
    decreases s.len(),
{
    if s.len() > 0 && s[0] == '/' {
        drop_slashes(s.drop_first())
    } else {
        s
    }
}

/// The command that a message starting with `/` carries: the text after the
/// slashes, trimmed.
pub open spec fn command_of(message: Seq<char>) -> Seq<char> {
    trim(drop_slashes(message))
}

/// The command that `message` carries (see `command_of`).
pub fn command_chars(message: &str) -> (out: Vec<char>)
    ensures
        out@ == command_of(message@),
{
    let v = chars_of(message);
    let mut a: usize = 0;
    assert(v@.skip(0) =~= v@);
    while a < v.len() && v[a] == '/'
        invariant
            a <= v.len(),
            drop_slashes(v@) == drop_slashes(v@.skip(a as int)),
        decreases v.len() - a,
    {
        assert(v@.skip(a as int).drop_first() =~= v@.skip(a + 1));
        a = a + 1;
    }
    let rest = crate::text::copy_range(&v, a, v.len());
    assert(rest@ =~= v@.skip(a as int));
    trim_chars(&rest)
}

/// The `Command` message that carries the command of `message`, encrypted under the
/// session key; a failure gives `FctpError: ` and the `Debug` text of the error.
pub fn handle_command_message(state: &ClientState, message: &str) -> (r: Result<Vec<u8>, String>)
    ensures
        ({
            let command = (FctpCode::Command, state@.id, command_of(message@), state@.server_id);
            &&& (r is Ok <==> encode_utf8(wire_text(command)).len() <= aes_gcm_max_plaintext())
            &&& (r matches Ok(p) ==> is_binary_encryption(p@, state@.session_key, encode_utf8(wire_text(command))))
            &&& (r matches Err(e) ==> e@ == "FctpError: EncryptionFailed(\"Error\")"@)
        }),
{
    let command = string_of(&command_chars(message));
    let server_id = crate::protocol_utils::fctp::get_server_id(state);
    let id = get_id(state);
    let msg = FctpMessage::new(FctpCode::Command, id.as_str(), command.as_str(), server_id.as_str());
    match encapsulate_to_fctp(&msg, &state.session_key) {
        Ok(p) => Ok(p),
        Err(_) => Err(string_from("FctpError: EncryptionFailed(\"Error\")")),
    }
}

/// Whether `packet` is the `Message` that carries `plaintext` encrypted to
/// `recipient_pub`, from `from` to `to`, encrypted under `session_key`.
pub open spec fn is_chat_packet(
    packet: Seq<u8>,
    session_key: Seq<u8>,
    recipient_pub: Seq<u8>,
    plaintext: Seq<u8>,
    from: Seq<char>,
    to: Seq<char>,
) -> bool {
    exists|m: Seq<u8>|
        is_asymmetric_encryption(m, recipient_pub, plaintext) && is_binary_encryption(
            packet,
            session_key,
            encode_utf8(wire_text((FctpCode::Message, from, trim(#[trigger] base64_standard_encode(m)), to))),
        )
}

/// The number of bytes of the `Message` that carries, from `from` to `to`, the
/// Base64 of a `plaintext_len`-byte text encrypted to a recipient (73 bytes more,
/// four Base64 characters for every three bytes).
pub open spec fn chat_text_len(from: Seq<char>, plaintext_len: int, to: Seq<char>) -> int {
    empty_body_len(FctpCode::Message, from, to) + 4 * ((plaintext_len + 73 + 2) / 3)
}

/// A message for another user, ready to send.
pub struct ChatMessage {
    /// The encrypted `Message` to send to the server.
    pub packet: Vec<u8>,
    /// The line to show in the conversation once it is sent without error.
    pub echo: String,
}

/// Prepares a message for `recipient`: lowers the acknowledgement and error flags,
/// selects the trimmed recipient, encrypts the trimmed text to the recipient's
/// public key (`Failed to retrieve recipient's public key` when none is recorded),
/// and puts its Base64 in a `Message` encrypted under the session key. It succeeds
/// exactly when the key is recorded, XChaCha20-Poly1305 accepts the text, and the
/// `Message` is short enough for AES-256-GCM.
pub fn handle_regular_message(state: &mut ClientState, message: &str, recipient: &str) -> (r: Result<ChatMessage, String>)
    requires
        base64_encodable(encode_utf8(trim(message@)).len() as int + 73),
        old(state)@.key_table.contains_key(trim(recipient@)) ==> !xchacha_keystream_stops(
            encode_utf8(trim(message@)).len() as int,
        ),
    ensures
        old(state)@.key_table.contains_key(trim(recipient@)) && xchacha_accepts(encode_utf8(trim(message@)).len() as int)
            ==> (r is Ok <==> chat_text_len(old(state)@.id, encode_utf8(trim(message@)).len() as int, trim(recipient@))
            <= aes_gcm_max_plaintext()),
        final(state)@ == (ClientView {
            last_ack: false,
            request_error: false,
            current_recipient: trim(recipient@),
            ..old(state)@
        }),
        !old(state)@.key_table.contains_key(trim(recipient@)) ==> (r matches Err(e) && e@ == "Failed to retrieve recipient's public key"@),
        old(state)@.key_table.contains_key(trim(recipient@)) && !xchacha_accepts(encode_utf8(trim(message@)).len() as int)
            ==> (r matches Err(e) && e@ == "Encryption error: "@ + quoted("Encrypt error: Error"@)),
        old(state)@.key_table.contains_key(trim(recipient@)) && xchacha_accepts(encode_utf8(trim(message@)).len() as int)
            ==> (r matches Err(e) ==> e@ == "FctpError: EncryptionFailed(\"Error\")"@),
        r matches Ok(c) ==> old(state)@.key_table.contains_key(trim(recipient@)) && is_chat_packet(
            c.packet@,
            old(state)@.session_key,
            old(state)@.key_table[trim(recipient@)],
            encode_utf8(trim(message@)),
            old(state)@.id,
            trim(recipient@),
        ) && c.echo@ == "[You] "@ + trim(message@),
        r matches Err(e) ==> e@ == "Failed to retrieve recipient's public key"@ || e@ == "Encryption error: "@
            + quoted("Encrypt error: Error"@) || e@ == "FctpError: EncryptionFailed(\"Error\")"@,
{
    state.last_ack = false;
    state.request_error = false;
    let to = string_of(&trim_chars(&chars_of(recipient)));
    set_current_recipient(state, to.as_str());
    let pk = match get_pk_from_e2ee_key_table(state, to.as_str()) {
        Some(k) => k,
        None => return Err(string_from("Failed to retrieve recipient's public key")),
    };
    let text = string_of(&trim_chars(&chars_of(message)));
    let plaintext = vstd::slice::slice_to_vec(text.as_str().as_bytes());
    let encrypted = match encrypt(&pk, plaintext.as_slice()) {
        Ok(m) => m,
        Err(e) => {
            let mut v = chars_of("Encryption error: \"");
            push_str_chars(&mut v, e.as_str());
            push_str_chars(&mut v, "\"");
            proof {
                reveal_strlit("Encryption error: \"");
                reveal_strlit("Encryption error: ");
                reveal_strlit("\"");
                assert(v@ =~= "Encryption error: "@ + quoted(e@));
            }
            return Err(string_of(&v));
        },
    };
    proof {
        lemma_encryption_len(encrypted@, pk@, plaintext@);
    }
    let encoded = base64_encode(encrypted.as_slice());
    let body = string_of(&trim_chars(&chars_of(encoded.as_str())));
    let id = get_id(state);
    proof {
        lemma_trim_base64(encoded@);
        lemma_base64_text_len(encoded@);
        lemma_message_text_len(200, id@, encoded@, to@);
    }
    let msg = FctpMessage::new(FctpCode::Message, id.as_str(), body.as_str(), to.as_str());
    let packet = match encapsulate_to_fctp(&msg, &state.session_key) {
        Ok(p) => p,
        Err(_) => return Err(string_from("FctpError: EncryptionFailed(\"Error\")")),
    };
    let mut echo = chars_of("[You] ");
    push_str_chars(&mut echo, text.as_str());
    Ok(ChatMessage { packet, echo: string_of(&echo) })
}

/// What sending from the user interface gives.
pub enum Outgoing {
    /// A command for the server.
    Command(Vec<u8>),
    /// A message for another user.
    Chat(ChatMessage),
}

/// Handles the user's send: `Message cannot be empty` and `Recipient cannot be empty`
/// for empty inputs; a text that starts with `/` is a command for the server, any
/// other is a message for the recipient.
pub fn ui_command_send_fctp_message(state: &mut ClientState, message: &str, recipient: &str) -> (r: Result<Outgoing, String>)
    requires
        message@.len() > 0 && message@[0] == '/' || base64_encodable(encode_utf8(trim(message@)).len() as int + 73),
        message@.len() > 0 && message@[0] != '/' && old(state)@.key_table.contains_key(trim(recipient@))
            ==> !xchacha_keystream_stops(encode_utf8(trim(message@)).len() as int),
    ensures
        message@.len() > 0 && recipient@.len() > 0 && message@[0] != '/' && old(state)@.key_table.contains_key(
            trim(recipient@),
        ) && xchacha_accepts(encode_utf8(trim(message@)).len() as int) ==> (r is Ok <==> chat_text_len(
            old(state)@.id,
            encode_utf8(trim(message@)).len() as int,
            trim(recipient@),
        ) <= aes_gcm_max_plaintext()),
        message@.len() == 0 ==> (r matches Err(e) && e@ == "Message cannot be empty"@ && final(state)@ == old(state)@),
        message@.len() > 0 && recipient@.len() == 0 ==> (r matches Err(e) && e@ == "Recipient cannot be empty"@
            && final(state)@ == old(state)@),
        message@.len() > 0 && recipient@.len() > 0 && message@[0] == '/' ==> final(state)@ == old(state)@ && ({
            let command = (FctpCode::Command, old(state)@.id, command_of(message@), old(state)@.server_id);
            &&& (r matches Ok(Outgoing::Command(p)) ==> is_binary_encryption(p@, old(state)@.session_key, encode_utf8(wire_text(command))))
            &&& (r is Ok <==> encode_utf8(wire_text(command)).len() <= aes_gcm_max_plaintext())
            &&& (r is Ok ==> r matches Ok(Outgoing::Command(_)))
            &&& (r matches Err(e) ==> e@ == "FctpError: EncryptionFailed(\"Error\")"@)
        }),
        message@.len() > 0 && recipient@.len() > 0 && message@[0] != '/' ==> final(state)@ == (ClientView {
            last_ack: false,
            request_error: false,
            current_recipient: trim(recipient@),
            ..old(state)@
        }) && (r is Ok ==> (r matches Ok(Outgoing::Chat(c)) && is_chat_packet(
            c.packet@,
            old(state)@.session_key,
            old(state)@.key_table[trim(recipient@)],
            encode_utf8(trim(message@)),
            old(state)@.id,
            trim(recipient@),
        ) && c.echo@ == "[You] "@ + trim(message@))),
        message@.len() > 0 && recipient@.len() > 0 && message@[0] != '/' && !old(state)@.key_table.contains_key(
            trim(recipient@),
        ) ==> (r matches Err(e) && e@ == "Failed to retrieve recipient's public key"@),
        message@.len() > 0 && recipient@.len() > 0 && message@[0] != '/' && old(state)@.key_table.contains_key(
            trim(recipient@),
        ) ==> (r matches Err(e) ==> e@ == if xchacha_accepts(encode_utf8(trim(message@)).len() as int) {
            "FctpError: EncryptionFailed(\"Error\")"@
        } else {
            "Encryption error: "@ + quoted("Encrypt error: Error"@)
        }),
{
    let v = chars_of(message);
    if v.len() == 0 {
        return Err(string_from("Message cannot be empty"));
    }
    if chars_of(recipient).len() == 0 {
        return Err(string_from("Recipient cannot be empty"));
    }
    if v[0] == '/' {
        match handle_command_message(state, message) {
            Ok(p) => Ok(Outgoing::Command(p)),
            Err(e) => Err(e),
        }
    } else {
        match handle_regular_message(state, message, recipient) {
            Ok(c) => Ok(Outgoing::Chat(c)),
            Err(e) => Err(e),
        }
    }
}

/// Selects `recipient` (trimmed) and tells whether its public key must be requested:
/// none is recorded, and the recipient is neither `server` nor empty.
pub fn ui_command_select_recipient(state: &mut ClientState, recipient: &str) -> (request: bool)
    ensures
        final(state)@ == (ClientView { current_recipient: trim(recipient@), ..old(state)@ }),
        request == (!old(state)@.key_table.contains_key(trim(recipient@)) && recipient@ != "server"@
            && recipient@.len() > 0),
{
    let name = string_of(&trim_chars(&chars_of(recipient)));
    set_current_recipient(state, name.as_str());
    let known = has_pk_in_e2ee_key_table(state, name.as_str());
    let is_server = crate::text::chars_eq(&chars_of(recipient), &chars_of("server"));
    !known && !is_server && chars_of(recipient).len() > 0
}

/// Forgets the public key of `recipient` (trimmed).
pub fn ui_command_remove_recipient(state: &mut ClientState, recipient: &str)
    ensures
        final(state)@ == (ClientView { key_table: old(state)@.key_table.remove(trim(recipient@)), ..old(state)@ }),
{
    let name = string_of(&trim_chars(&chars_of(recipient)));
    crate::protocol_utils::fctp_secure::remove_pk_from_e2ee_key_table(state, name.as_str());
}

} // verus!
