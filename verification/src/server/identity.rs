//! The server's identifier, set once, and the identifiers it gives clients.

use vstd::prelude::*;

use crate::crypt::symmetric::string_from;

verus! {

/// The server's identifier: unset until `set_id`, and then never changed.
pub struct ServerIdentity {
    id: Option<String>,
}

impl View for ServerIdentity {
    type V = Option<Seq<char>>;

    closed spec fn view(&self) -> Option<Seq<char>> {
        match self.id {
            Some(s) => Some(s@),
            None => None,
        }
    }
}

/// The error of a second `set_id`.
pub const REREGISTER_ERROR: &'static str = "Unauthorized action: Cannot reregister server!";

impl ServerIdentity {
    /// No identifier yet.
    pub fn new() -> (s: Self)
        ensures
            s@ is None,
    {
        ServerIdentity { id: None }
    }
}

/// Sets the server's identifier, the first time only: a second call changes
/// nothing and gives the error.
pub fn set_id(state: &mut ServerIdentity, new_id: &str) -> (r: Result<(), String>)
    ensures
        r is Ok <==> old(state)@ is None,
        r is Ok ==> final(state)@ == Some(new_id@),
        r matches Err(e) ==> final(state)@ == old(state)@ && e@ == REREGISTER_ERROR@,
{
    if state.id.is_some() {
        return Err(string_from(REREGISTER_ERROR));
    }
    state.id = Some(String::from_str(new_id));
    Ok(())
}

/// The server's identifier, once it is set.
pub fn get_id(state: &ServerIdentity) -> (id: String)
    requires
        state@ is Some,
    ensures
        state@ == Some(id@),
{
    match &state.id {
        Some(s) => s.clone(),
        None => String::new(),
    }
}

/// Whether `c` is a lower-case hexadecimal digit.
pub open spec fn is_lower_hex(c: char) -> bool {
    ('0' <= c && c <= '9') || ('a' <= c && c <= 'f')
}

/// Whether `s` is the hyphenated lower-case text of a random (version 4, RFC
/// variant) UUID: 36 characters, hyphens at 8, 13, 18 and 23, hexadecimal digits
/// elsewhere, `4` at 14, and one of `8`, `9`, `a`, `b` at 19.
pub open spec fn is_uuid_v4_text(s: Seq<char>) -> bool {
    &&& s.len() == 36
    &&& forall|i: int| 0 <= i < 36 ==> if i == 8 || i == 13 || i == 18 || i == 23 {
        s[i] == '-'
    } else {
        is_lower_hex(#[trigger] s[i])
    }
    &&& s[14] == '4'
    &&& (s[19] == '8' || s[19] == '9' || s[19] == 'a' || s[19] == 'b')
}

/// `uuid::Uuid::new_v4()` written with `to_string`. Trusted: the text is a
/// hyphenated lower-case version-4 UUID (what `new_v4` and the `Display` impl
/// document); which one is left to the random source.
#[verifier::external_body]
fn uuid_v4_text() -> (id: String)
    ensures
        is_uuid_v4_text(id@),
{
    uuid::Uuid::new_v4().to_string()
}

/// A fresh identifier for a client that connects: a random version-4 UUID.
pub fn generate_id() -> (id: String)
    ensures
        is_uuid_v4_text(id@),
{
    uuid_v4_text()
}

} // verus!
