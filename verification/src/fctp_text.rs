use vstd::prelude::*;
use vstd::utf8::encode_utf8;
use vstd::string::StringSliceAdditionalSpecFns;

use crate::crypt::utils::is_base64_char;

use crate::text::{
    chars_eq, chars_of, dec_i32, is_ws, nl_index, trim_end, trim_start, dec_i32_chars, lemma_next_line_crlf, lemma_parse_dec_i32,
    next_line, no_newline, parse_i32, parse_i32_chars, push_chars, push_str_chars, string_of,
    strip_prefix, strip_prefix_chars, take_line, trim, trim_chars,
};

verus! {

/// The first line of every message of the protocol.
pub const PROTOCOL_VERSION: &'static str = "FoggyChat Transfer Protocol 0.1";

/// The label in front of the sender's line.
pub const FROM_LABEL: &'static str = "From: ";

/// The label in front of the body's line.
pub const BODY_LABEL: &'static str = "Body: ";

/// The label in front of the recipient's line.
pub const TO_LABEL: &'static str = "To: ";

/// Carriage return and line feed, the end of each header line.
pub open spec fn crlf() -> Seq<char> {
    seq!['\r', '\n']
}

/// The text of a message with a numeric code, without the blank line that ends it:
/// the protocol line, the code in decimal, then the `From`, `Body` and `To` lines.
pub open spec fn message_core(code: i32, from: Seq<char>, body: Seq<char>, to: Seq<char>) -> Seq<
    char,
> {
    PROTOCOL_VERSION@ + crlf() + dec_i32(code) + crlf() + FROM_LABEL@ + from + crlf() + BODY_LABEL@
        + body + crlf() + TO_LABEL@ + to
}

/// The text of a message ended by the blank line: the core, then CR LF CR LF.
pub open spec fn message_text(code: i32, from: Seq<char>, body: Seq<char>, to: Seq<char>) -> Seq<
    char,
> {
    message_core(code, from, body, to) + crlf() + crlf()
}

/// The value of a header line: the text after `label`, trimmed.
pub open spec fn header_value(line: Seq<char>, label: Seq<char>) -> Option<Seq<char>> {
    match strip_prefix(line, label) {
        Some(rest) => Some(trim(rest)),
        None => None,
    }
}

/// What a message text with a numeric code holds: the protocol line must match
/// exactly, the trimmed second line must parse as an `i32`, and the next three
/// lines must start with `From: `, `Body: ` and `To: `; the values are trimmed.
/// Lines after the fifth are not read.
pub open spec fn parse_plain(s: Seq<char>) -> Option<(i32, Seq<char>, Seq<char>, Seq<char>)> {
    match next_line(s) {
        None => None,
        Some((l1, r1)) => if l1 != PROTOCOL_VERSION@ {
            None
        } else {
            match next_line(r1) {
                None => None,
                Some((l2, r2)) => match parse_i32(trim(l2)) {
                    None => None,
                    Some(code) => match next_line(r2) {
                        None => None,
                        Some((l3, r3)) => match header_value(l3, FROM_LABEL@) {
                            None => None,
                            Some(from) => match next_line(r3) {
                                None => None,
                                Some((l4, r4)) => match header_value(l4, BODY_LABEL@) {
                                    None => None,
                                    Some(body) => match next_line(r4) {
                                        None => None,
                                        Some((l5, _)) => match header_value(l5, TO_LABEL@) {
                                            None => None,
                                            Some(to) => Some((code, from, body, to)),
                                        },
                                    },
                                },
                            },
                        },
                    },
                },
            }
        },
    }
}

/// A message of the protocol with a numeric code.
#[derive(Debug, Clone, PartialEq)]
pub struct FctpMessage {
    pub code: i32,
    pub from: String,
    pub body: String,
    pub to: String,
}

impl View for FctpMessage {
    type V = (i32, Seq<char>, Seq<char>, Seq<char>);

    open spec fn view(&self) -> Self::V {
        (self.code, self.from@, self.body@, self.to@)
    }
}

/// The view of an optional message.
pub open spec fn message_option_view(m: Option<FctpMessage>) -> Option<
    (i32, Seq<char>, Seq<char>, Seq<char>),
> {
    match m {
        Some(m) => Some(m@),
        None => None,
    }
}

/// The characters of a message with a numeric code; with `terminated`, the blank
/// line that ends a message follows.
pub fn message_chars(code: i32, from: &str, body: &str, to: &str, terminated: bool) -> (out: Vec<
    char,
>)
    ensures
        out@ == if terminated {
            message_text(code, from@, body@, to@)
        } else {
            message_core(code, from@, body@, to@)
        },
{
    let mut out: Vec<char> = Vec::new();
    push_str_chars(&mut out, PROTOCOL_VERSION);
    push_str_chars(&mut out, "\r\n");
    let digits = dec_i32_chars(code);
    push_chars(&mut out, &digits);
    push_str_chars(&mut out, "\r\n");
    push_str_chars(&mut out, FROM_LABEL);
    push_str_chars(&mut out, from);
    push_str_chars(&mut out, "\r\n");
    push_str_chars(&mut out, BODY_LABEL);
    push_str_chars(&mut out, body);
    push_str_chars(&mut out, "\r\n");
    push_str_chars(&mut out, TO_LABEL);
    push_str_chars(&mut out, to);
    proof {
        reveal_strlit("\r\n");
        assert(out@ =~= message_core(code, from@, body@, to@));
    }
    if terminated {
        push_str_chars(&mut out, "\r\n\r\n");
        proof {
            reveal_strlit("\r\n\r\n");
            assert(out@ =~= message_text(code, from@, body@, to@));
        }
    }
    out
}

/// Reads the value of a header line: `None` when the line does not start with `label`.
pub fn header_value_chars(line: &Vec<char>, label: &str) -> (r: Option<Vec<char>>)
    ensures
        match header_value(line@, label@) {
            None => r is None,
            Some(v) => r matches Some(w) && w@ == v,
        },
{
    let p = chars_of(label);
    match strip_prefix_chars(line, &p) {
        Some(rest) => Some(trim_chars(&rest)),
        None => None,
    }
}

/// Parses a message text with a numeric code (see `parse_plain`).
pub fn parse_plain_message(message: &str) -> (r: Option<FctpMessage>)
    ensures
        message_option_view(r) == parse_plain(message@),
{
    let v = chars_of(message);
    assert(v@.skip(0) =~= v@);
    let (l1, p1) = match take_line(&v, 0) {
        Some(x) => x,
        None => return None,
    };
    let pv = chars_of(PROTOCOL_VERSION);
    if !chars_eq(&l1, &pv) {
        return None;
    }
    let (l2, p2) = match take_line(&v, p1) {
        Some(x) => x,
        None => return None,
    };
    let code = match parse_i32_chars(&trim_chars(&l2)) {
        Some(c) => c,
        None => return None,
    };
    let (l3, p3) = match take_line(&v, p2) {
        Some(x) => x,
        None => return None,
    };
    let from = match header_value_chars(&l3, FROM_LABEL) {
        Some(x) => x,
        None => return None,
    };
    let (l4, p4) = match take_line(&v, p3) {
        Some(x) => x,
        None => return None,
    };
    let body = match header_value_chars(&l4, BODY_LABEL) {
        Some(x) => x,
        None => return None,
    };
    let (l5, _p5) = match take_line(&v, p4) {
        Some(x) => x,
        None => return None,
    };
    let to = match header_value_chars(&l5, TO_LABEL) {
        Some(x) => x,
        None => return None,
    };
    Some(FctpMessage { code, from: string_of(&from), body: string_of(&body), to: string_of(&to) })
}


/// A header line made of `label` and `value` has the trimmed `value` as its value.
pub proof fn lemma_header_value(label: Seq<char>, value: Seq<char>)
    ensures
        header_value(label + value, label) == Some(trim(value)),
{
    assert((label + value).take(label.len() as int) =~= label);
    assert((label + value).skip(label.len() as int) =~= value);
}

/// Joining two texts without line feed gives one without line feed.
pub proof fn lemma_no_newline_concat(a: Seq<char>, b: Seq<char>)
    requires
        no_newline(a),
        no_newline(b),
    ensures
        no_newline(a + b),
{
    assert forall|k: int| 0 <= k < (a + b).len() implies (a + b)[k] != '\n' by {
        if k >= a.len() {
            assert((a + b)[k] == b[k - a.len()]);
        }
    }
}

/// The constant lines of the format hold no line feed.
pub proof fn lemma_labels_no_newline()
    ensures
        no_newline(PROTOCOL_VERSION@),
        no_newline(FROM_LABEL@),
        no_newline(BODY_LABEL@),
        no_newline(TO_LABEL@),
{
    reveal_strlit("FoggyChat Transfer Protocol 0.1");
    reveal_strlit("From: ");
    reveal_strlit("Body: ");
    reveal_strlit("To: ");
}

/// A message text written from fields without line feeds reads back as the code and
/// the trimmed fields, with or without the closing blank line.
#[verifier::spinoff_prover]
#[verifier::rlimit(40)]
pub proof fn lemma_parse_message_text(code: i32, from: Seq<char>, body: Seq<char>, to: Seq<char>)
    requires
        no_newline(from),
        no_newline(body),
        no_newline(to),
    ensures
        parse_plain(message_text(code, from, body, to)) == Some((code, trim(from), trim(body), trim(to))),
        parse_plain(message_core(code, from, body, to)) == Some((code, trim(from), trim(body), trim(to))),
{
    lemma_labels_no_newline();
    lemma_parse_dec_i32(code);
    let pv = PROTOCOL_VERSION@;
    let d = dec_i32(code);
    let lf = FROM_LABEL@ + from;
    let lb = BODY_LABEL@ + body;
    let lt = TO_LABEL@ + to;
    lemma_no_newline_concat(FROM_LABEL@, from);
    lemma_no_newline_concat(BODY_LABEL@, body);
    lemma_no_newline_concat(TO_LABEL@, to);
    lemma_header_value(FROM_LABEL@, from);
    lemma_header_value(BODY_LABEL@, body);
    lemma_header_value(TO_LABEL@, to);
    let tail_core = lt;
    let tail_text = lt + crlf() + crlf();
    // the text after the protocol line, for either ending
    let r4c = tail_core;
    let r3c = lb + crlf() + r4c;
    let r2c = lf + crlf() + r3c;
    let r1c = d + crlf() + r2c;
    assert(message_core(code, from, body, to) =~= pv + crlf() + r1c);
    let r4t = tail_text;
    let r3t = lb + crlf() + r4t;
    let r2t = lf + crlf() + r3t;
    let r1t = d + crlf() + r2t;
    assert(message_text(code, from, body, to) =~= pv + crlf() + r1t);
    lemma_next_line_crlf(pv, r1c);
    lemma_next_line_crlf(d, r2c);
    lemma_next_line_crlf(lf, r3c);
    lemma_next_line_crlf(lb, r4c);
    lemma_next_line_crlf(pv, r1t);
    lemma_next_line_crlf(d, r2t);
    lemma_next_line_crlf(lf, r3t);
    lemma_next_line_crlf(lb, r4t);
    lemma_next_line_crlf(lt, crlf());
    crate::text::lemma_nl_index(lt, lt.len() as int);
    assert(lt.len() > 0) by {
        reveal_strlit("To: ");
    }
    assert(next_line(lt) == Some((lt, Seq::<char>::empty())));
}

/// No line feed comes before `nl_index`.
pub proof fn lemma_nl_index_prefix(s: Seq<char>)
    ensures
        0 <= nl_index(s) <= s.len(),
        forall|k: int| 0 <= k < nl_index(s) ==> s[k] != '\n',
        nl_index(s) < s.len() ==> s[nl_index(s)] == '\n',
    decreases s.len(),
{
    if s.len() > 0 && s[0] != '\n' {
        lemma_nl_index_prefix(s.drop_first());
        if nl_index(s) < s.len() {
            assert(s[nl_index(s)] == s.drop_first()[nl_index(s.drop_first())]);
        }
        assert forall|k: int| 0 <= k < nl_index(s) implies s[k] != '\n' by {
            if k > 0 {
                assert(s[k] == s.drop_first()[k - 1]);
            }
        }
    }
}

/// A line that `next_line` reads holds no line feed.
pub proof fn lemma_next_line_no_newline(s: Seq<char>)
    ensures
        next_line(s) matches Some((l, _)) ==> no_newline(l),
{
    lemma_nl_index_prefix(s);
    if s.len() > 0 && nl_index(s) == s.len() {
        assert forall|k: int| 0 <= k < s.len() implies s[k] != '\n' by {}
    }
}

/// Dropping white space at either end keeps a text free of line feeds.
pub proof fn lemma_trim_no_newline(s: Seq<char>)
    requires
        no_newline(s),
    ensures
        no_newline(trim_start(s)),
        no_newline(trim_end(s)),
        no_newline(trim(s)),
    decreases s.len(),
{
    if s.len() > 0 && is_ws(s[0]) {
        assert forall|k: int| 0 <= k < s.drop_first().len() implies s.drop_first()[k] != '\n' by {
            assert(s.drop_first()[k] == s[k + 1]);
        }
        lemma_trim_no_newline(s.drop_first());
    }
    if s.len() > 0 && is_ws(s.last()) {
        assert forall|k: int| 0 <= k < s.drop_last().len() implies s.drop_last()[k] != '\n' by {
            assert(s.drop_last()[k] == s[k]);
        }
        lemma_trim_no_newline(s.drop_last());
    }
    if no_newline(trim_start(s)) {
        lemma_trim_end_no_newline(trim_start(s));
    }
}

/// Dropping trailing white space keeps a text free of line feeds.
pub proof fn lemma_trim_end_no_newline(s: Seq<char>)
    requires
        no_newline(s),
    ensures
        no_newline(trim_end(s)),
    decreases s.len(),
{
    if s.len() > 0 && is_ws(s.last()) {
        assert forall|k: int| 0 <= k < s.drop_last().len() implies s.drop_last()[k] != '\n' by {
            assert(s.drop_last()[k] == s[k]);
        }
        lemma_trim_end_no_newline(s.drop_last());
    }
}

/// The value of a header line without line feed holds none.
pub proof fn lemma_header_value_no_newline(line: Seq<char>, label: Seq<char>)
    requires
        no_newline(line),
    ensures
        header_value(line, label) matches Some(v) ==> no_newline(v),
{
    if label.len() <= line.len() && line.take(label.len() as int) == label {
        let rest = line.skip(label.len() as int);
        assert forall|k: int| 0 <= k < rest.len() implies rest[k] != '\n' by {
            assert(rest[k] == line[k + label.len()]);
        }
        lemma_trim_no_newline(rest);
    }
}

/// The fields that `parse_plain` reads hold no line feed.
pub proof fn lemma_parse_plain_no_newline(s: Seq<char>)
    ensures
        parse_plain(s) matches Some((_, from, body, to)) ==> no_newline(from) && no_newline(body) && no_newline(to),
{
    if let Some((_, r1)) = next_line(s) {
        if let Some((_, r2)) = next_line(r1) {
            if let Some((l3, r3)) = next_line(r2) {
                lemma_next_line_no_newline(r2);
                lemma_header_value_no_newline(l3, FROM_LABEL@);
                if let Some((l4, r4)) = next_line(r3) {
                    lemma_next_line_no_newline(r3);
                    lemma_header_value_no_newline(l4, BODY_LABEL@);
                    if let Some((l5, _)) = next_line(r4) {
                        lemma_next_line_no_newline(r4);
                        lemma_header_value_no_newline(l5, TO_LABEL@);
                    }
                }
            }
        }
    }
}

/// The UTF-8 bytes of two texts joined are the bytes of each, joined.
pub proof fn lemma_encode_utf8_concat(a: Seq<char>, b: Seq<char>)
    ensures
        encode_utf8(a + b) == encode_utf8(a) + encode_utf8(b),
    decreases a.len(),
{
    if a.len() == 0 {
        assert(a + b =~= b);
        assert(encode_utf8(a) =~= Seq::<u8>::empty());
        assert(encode_utf8(a) + encode_utf8(b) =~= encode_utf8(b));
    } else {
        lemma_encode_utf8_concat(a.drop_first(), b);
        assert((a + b).drop_first() =~= a.drop_first() + b);
        assert((a + b)[0] == a[0]);
        assert(encode_utf8(a + b) =~= encode_utf8(a) + encode_utf8(b));
    }
}

/// A message text's bytes are as many as those of the text with an empty body, and
/// those of the body.
pub proof fn lemma_message_text_len(code: i32, from: Seq<char>, body: Seq<char>, to: Seq<char>)
    ensures
        encode_utf8(message_text(code, from, body, to)).len() == encode_utf8(message_text(code, from, Seq::empty(), to)).len()
            + encode_utf8(body).len(),
{
    let p = PROTOCOL_VERSION@ + crlf() + dec_i32(code) + crlf() + FROM_LABEL@ + from + crlf() + BODY_LABEL@;
    let q = crlf() + TO_LABEL@ + to + crlf() + crlf();
    assert(message_text(code, from, body, to) =~= p + body + q);
    assert(message_text(code, from, Seq::empty(), to) =~= p + q);
    lemma_encode_utf8_concat(p + body, q);
    lemma_encode_utf8_concat(p, body);
    lemma_encode_utf8_concat(p, q);
}

/// A text of Base64 characters has as many UTF-8 bytes as characters.
pub proof fn lemma_base64_text_len(t: Seq<char>)
    requires
        forall|k: int| 0 <= k < t.len() ==> is_base64_char(#[trigger] t[k]),
    ensures
        encode_utf8(t).len() == t.len(),
    decreases t.len(),
{
    if t.len() > 0 {
        let c = t[0];
        assert(is_base64_char(c));
        if c == '+' {
            assert(('+' as u32) == 43);
        } else if c == '/' {
            assert(('/' as u32) == 47);
        } else if c == '=' {
            assert(('=' as u32) == 61);
        }
        assert(vstd::utf8::has_width_1_encoding(c as u32));
        assert forall|k: int| 0 <= k < t.drop_first().len() implies is_base64_char(#[trigger] t.drop_first()[k]) by {
            assert(t.drop_first()[k] == t[k + 1]);
        }
        lemma_base64_text_len(t.drop_first());
    }
}

/// A text of Base64 characters is its own trimmed text.
pub proof fn lemma_trim_base64(t: Seq<char>)
    requires
        forall|k: int| 0 <= k < t.len() ==> is_base64_char(#[trigger] t[k]),
    ensures
        trim(t) == t,
{
    if t.len() > 0 {
        assert(is_base64_char(t[0]));
        assert(!is_ws(t[0]));
        assert(trim_start(t) == t);
        assert(is_base64_char(t[t.len() - 1]));
        assert(!is_ws(t.last()));
        assert(trim_end(t) == t);
    } else {
        assert(trim_start(t) == t);
        assert(trim_end(t) == t);
    }
}

/// Reading a line from a text that ends with a line feed reads the same line from
/// that text followed by anything, and leaves the same rest followed by it; the rest
/// is empty or ends with a line feed too.
pub proof fn lemma_next_line_append(s: Seq<char>, t: Seq<char>)
    requires
        s.len() > 0,
        s.last() == '\n',
    ensures
        next_line(s) is Some,
        next_line(s + t) == Some((next_line(s)->Some_0.0, next_line(s)->Some_0.1 + t)),
        next_line(s)->Some_0.1.len() > 0 ==> next_line(s)->Some_0.1.last() == '\n',
{
    lemma_nl_index_prefix(s);
    let i = nl_index(s);
    if i == s.len() {
        assert(s[s.len() - 1] != '\n');
    }
    assert(i < s.len());
    let u = s + t;
    assert forall|k: int| 0 <= k < i implies u[k] != '\n' by {
        assert(u[k] == s[k]);
    }
    assert(u[i] == s[i]);
    crate::text::lemma_nl_index(u, i);
    assert(u.take(i) =~= s.take(i));
    assert(u.skip(i + 1) =~= s.skip(i + 1) + t);
    let r = s.skip(i + 1);
    if r.len() > 0 {
        assert(r.last() == s.last());
    }
}

} // verus!
