//! The client's own identifier, which the server assigns.

use vstd::prelude::*;

use crate::protocol_utils::session::{ClientState, ClientView};

verus! {

/// Records the identifier that the server gave this client.
pub fn set_id(state: &mut ClientState, new_id: &str)
    ensures
        final(state)@ == (ClientView { id: new_id@, ..old(state)@ }),
{
    state.id = String::from_str(new_id);
}

/// The identifier that the server gave this client.
pub fn get_id(state: &ClientState) -> (id: String)
    ensures
        id@ == state@.id,
{
    state.id.clone()
}

} // verus!
