//! What the user types: `recipient:message`, or `/command`.

use vstd::prelude::*;

use crate::fctp_text::{message_chars, message_text};
use crate::protocol_utils::connection::{command_chars, command_of};
use crate::protocol_utils::session::{ClientState, ClientView};
use crate::text::{chars_of, push_str_chars, string_of, trim, trim_chars};

verus! {

/// The pattern of an input line: a key and a value around the only colon.
pub const KEY_VALUE_PATTERN: &'static str = "^([^:]+):([^:]+)$";

/// The error for an input line that is not `key:value`.
pub const INPUT_FORMAT_ERROR: &'static str = "Wrong input format, expected 'key:value'";

/// Whether `s` holds no colon.
pub open spec fn colon_free(s: Seq<char>) -> bool {
    forall|i: int| 0 <= i < s.len() ==> s[i] != ':'
}

/// Whether `k` is the index of the only colon of `h`, with text on both sides.
pub open spec fn only_colon_at(h: Seq<char>, k: int) -> bool {
    0 < k < h.len() - 1 && h[k] == ':' && colon_free(h.take(k)) && colon_free(h.skip(k + 1))
}

/// The key and the value of `h`: the text before and after its only colon, both
/// non-empty; `None` when `h` has no colon, more than one, or one at either end.
pub open spec fn key_value_split(h: Seq<char>) -> Option<(Seq<char>, Seq<char>)> {
    if exists|k: int| #[trigger] only_colon_at(h, k) {
        let k = choose|k: int| #[trigger] only_colon_at(h, k);
        Some((h.take(k), h.skip(k + 1)))
    } else {
        None
    }
}

/// The capture groups that `KEY_VALUE_PATTERN` gives on `h`: the whole text, the
/// key and the value.
pub open spec fn key_value_captures(h: Seq<char>) -> Option<Seq<Option<Seq<char>>>> {
    match key_value_split(h) {
        Some((key, value)) => Some(seq![Some(h), Some(key), Some(value)]),
        None => None,
    }
}

/// The capture groups of a regular expression's first match in a haystack, as
/// `regex` computes them: group by group, the matched text, or `None` for a group
/// that took no part; `None` when nothing matches or the pattern does not compile.
pub uninterp spec fn regex_captures_result(pattern: Seq<char>, haystack: Seq<char>) -> Option<Seq<Option<Seq<char>>>>;

/// The view of a list of capture groups.
pub open spec fn captures_view(r: Option<Vec<Option<String>>>) -> Option<Seq<Option<Seq<char>>>> {
    match r {
        Some(groups) => Some(groups@.map_values(|g: Option<String>| match g {
            Some(s) => Some(s@),
            None => None,
        })),
        None => None,
    }
}

/// Compiles `pattern` with `regex::Regex::new` and calls `captures` on `haystack`,
/// turning each group's `Match` into its text (`Captures::iter`, `Match::as_str`).
/// A pattern that does not compile gives `None`, as no match does. Trusted: the
/// result is named `regex_captures_result`; and for `KEY_VALUE_PATTERN` (anchors
/// `^` and `$` at the ends of the haystack, `[^:]+` one or more characters other
/// than a colon, as the crate documents its syntax) the groups are the whole
/// haystack and the text on each side of its only colon.
#[verifier::external_body]
fn regex_captures(pattern: &str, haystack: &str) -> (r: Option<Vec<Option<String>>>)
    ensures
        captures_view(r) == regex_captures_result(pattern@, haystack@),
        pattern@ == KEY_VALUE_PATTERN@ ==> captures_view(r) == key_value_captures(haystack@),
{
    match regex::Regex::new(pattern) {
        Ok(re) => re.captures(haystack).map(
            |caps| caps.iter().map(|m| m.map(|m| m.as_str().to_string())).collect(),
        ),
        Err(_) => None,
    }
}

/// The view of what `parse_input` returns.
pub open spec fn parse_input_view(r: Result<(String, String), &'static str>) -> Result<(Seq<char>, Seq<char>), Seq<char>> {
    match r {
        Ok((key, value)) => Ok((key@, value@)),
        Err(e) => Err(e@),
    }
}

/// What `parse_input` gives for `input`: the key and the value around its only
/// colon, or the format error.
pub open spec fn parse_input_result(input: Seq<char>) -> Result<(Seq<char>, Seq<char>), Seq<char>> {
    match key_value_split(input) {
        Some(kv) => Ok(kv),
        None => Err(INPUT_FORMAT_ERROR@),
    }
}

/// Splits an input line `key:value` at its only colon, with `KEY_VALUE_PATTERN`.
pub fn parse_input(input: &str) -> (r: Result<(String, String), &'static str>)
    ensures
        parse_input_view(r) == parse_input_result(input@),
{
    match regex_captures(KEY_VALUE_PATTERN, input) {
        Some(groups) => {
            assert(captures_view(Some(groups))->Some_0.len() == groups@.len());
            assert(key_value_split(input@) is Some);
            if groups.len() < 3 {
                return Err(INPUT_FORMAT_ERROR);
            }
            assert(groups@[1] is Some && groups@[2] is Some) by {
                assert(captures_view(Some(groups))->Some_0[1] is Some);
                assert(captures_view(Some(groups))->Some_0[2] is Some);
            }
            match (&groups[1], &groups[2]) {
                (Some(key), Some(value)) => Ok((key.clone(), value.clone())),
                _ => Err(INPUT_FORMAT_ERROR),
            }
        },
        None => Err(INPUT_FORMAT_ERROR),
    }
}

/// What a line that the user typed becomes: a line starting with `/` is a command
/// to the server (code 201, with the text after the slashes, trimmed); any other is
/// `recipient:message`, a message to that user (code 200, both parts trimmed); a
/// line that is neither gives the error to show. A packet ends with a line feed.
pub open spec fn input_packet_result(state: ClientView, line: Seq<char>) -> Result<Seq<char>, Seq<char>> {
    if line.len() > 0 && line[0] == '/' {
        Ok(message_text(201, state.id, command_of(line), state.server_id) + seq!['\n'])
    } else {
        match parse_input_result(line) {
            Ok((to, body)) => Ok(message_text(200, state.id, trim(body), trim(to)) + seq!['\n']),
            Err(e) => Err("Parse error: "@ + e),
        }
    }
}

/// The view of a `Result` of two `String`s.
pub open spec fn string_result_view(r: Result<String, String>) -> Result<Seq<char>, Seq<char>> {
    match r {
        Ok(s) => Ok(s@),
        Err(e) => Err(e@),
    }
}

/// Turns a line that the user typed into the packet to send (see
/// `input_packet_result`).
pub fn input_packet(state: &ClientState, line: &str) -> (r: Result<String, String>)
    ensures
        string_result_view(r) == input_packet_result(state@, line@),
{
    let v = chars_of(line);
    proof {
        reveal_strlit("\n");
        reveal_strlit("Parse error: ");
    }
    if v.len() > 0 && v[0] == '/' {
        let command = string_of(&command_chars(line));
        let mut out = message_chars(201, state.id.as_str(), command.as_str(), state.server_id.as_str(), true);
        push_str_chars(&mut out, "\n");
        assert(out@ == message_text(201, state@.id, command_of(line@), state@.server_id) + seq!['\n']);
        Ok(string_of(&out))
    } else {
        match parse_input(line) {
            Ok((to, body)) => {
                let body = string_of(&trim_chars(&chars_of(body.as_str())));
                let to = string_of(&trim_chars(&chars_of(to.as_str())));
                let mut out = message_chars(200, state.id.as_str(), body.as_str(), to.as_str(), true);
                push_str_chars(&mut out, "\n");
                assert(out@ == message_text(200, state@.id, body@, to@) + seq!['\n']);
                Ok(string_of(&out))
            },
            Err(e) => {
                let mut out = chars_of("Parse error: ");
                push_str_chars(&mut out, e);
                Err(string_of(&out))
            },
        }
    }
}

} // verus!
