//! The server's certificate: the X25519 key pair to which clients encrypt their
//! key-exchange keys.

use vstd::prelude::*;

use crate::protocol_utils::session::zero_key;

verus! {

/// The certificate key pair; both halves are all zero until it is set.
pub struct CertState {
    pub cert_pub: [u8; 32],
    pub cert_sec: [u8; 32],
}

impl View for CertState {
    type V = (Seq<u8>, Seq<u8>);

    open spec fn view(&self) -> (Seq<u8>, Seq<u8>) {
        (self.cert_pub@, self.cert_sec@)
    }
}

impl CertState {
    /// No certificate yet: both halves all zero.
    pub fn new() -> (c: Self)
        ensures
            c@ == (zero_key(), zero_key()),
    {
        let c = CertState { cert_pub: [0u8; 32], cert_sec: [0u8; 32] };
        assert(c.cert_pub@ =~= zero_key());
        assert(c.cert_sec@ =~= zero_key());
        c
    }
}

/// Records the certificate key pair.
pub fn set_cert(state: &mut CertState, new_pubkey: [u8; 32], new_sec: [u8; 32])
    ensures
        final(state)@ == (new_pubkey@, new_sec@),
{
    state.cert_pub = new_pubkey;
    state.cert_sec = new_sec;
}

/// The certificate's public key.
pub fn get_cert_pub(state: &CertState) -> (k: [u8; 32])
    ensures
        k@ == state@.0,
{
    state.cert_pub
}

/// The certificate's secret key.
pub fn get_cert_sec(state: &CertState) -> (k: [u8; 32])
    ensures
        k@ == state@.1,
{
    state.cert_sec
}

} // verus!
