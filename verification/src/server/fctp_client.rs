//! The connected clients, by identifier.

use vstd::prelude::*;

use crate::protocol_utils::session::{zero_key, NamedTable};

verus! {

/// What the server keeps of a connected client: the session key under which it
/// writes to the client, and the nickname the client chose (empty until then).
pub struct ClientInfo {
    pub conn_session_key: [u8; 32],
    pub ext_session_username: String,
}

/// A `ClientInfo` as a value.
pub struct ClientInfoView {
    pub conn_session_key: Seq<u8>,
    pub ext_session_username: Seq<char>,
}

impl View for ClientInfo {
    type V = ClientInfoView;

    open spec fn view(&self) -> ClientInfoView {
        ClientInfoView {
            conn_session_key: self.conn_session_key@,
            ext_session_username: self.ext_session_username@,
        }
    }
}

/// The connected clients, by identifier.
pub type Clients = NamedTable<ClientInfo>;

impl ClientInfo {
    /// The record of a client that has just connected: no session key, no nickname.
    pub open spec fn new_view() -> ClientInfoView {
        ClientInfoView { conn_session_key: zero_key(), ext_session_username: Seq::empty() }
    }

    /// A client that has just connected: no session key yet, no nickname.
    pub fn new() -> (c: Self)
        ensures
            c@ == Self::new_view(),
    {
        let c = ClientInfo { conn_session_key: [0u8; 32], ext_session_username: String::new() };
        assert(c.conn_session_key@ =~= zero_key());
        c
    }

    /// A copy of the record.
    pub fn copy(&self) -> (c: Self)
        ensures
            c@ == self@,
    {
        ClientInfo { conn_session_key: self.conn_session_key, ext_session_username: self.ext_session_username.clone() }
    }
}

} // verus!
