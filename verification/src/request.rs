//! The requests that the manager receives.

use vstd::prelude::*;

verus! {

/// A request to sign a message.
#[derive(Debug, PartialEq, Eq)]
pub struct SigningRequest {
    pub id: String,
    pub message: Vec<u8>,
}

/// What a [`SigningRequest`] holds, as mathematical values.
pub struct SigningRequestView {
    pub id: Seq<char>,
    pub message: Seq<u8>,
}

impl View for SigningRequest {
    type V = SigningRequestView;

    open spec fn view(&self) -> SigningRequestView {
        SigningRequestView { id: self.id@, message: self.message@ }
    }
}

impl Clone for SigningRequest {
    fn clone(&self) -> (request: SigningRequest)
        ensures
            request@ == self@,
    {
        let message = self.message.clone();
        assert(message@ =~= self.message@);
        SigningRequest { id: self.id.clone(), message }
    }
}

/// The parameters of a distributed key generation.
#[derive(Clone, Copy, Debug, PartialEq, Eq, Structural)]
pub struct KeyGenParams {
    /// The number of parties that run the protocol.
    pub parties: u16,
    /// The number of parties whose cooperation a usable key requires.
    pub threshold: u16,
}

/// A request to generate a key among `keygen_params.parties` parties.
#[derive(Debug, PartialEq, Eq)]
pub struct KeyGenRequest {
    pub id: String,
    pub keygen_params: KeyGenParams,
}

/// What a [`KeyGenRequest`] holds, as mathematical values.
pub struct KeyGenRequestView {
    pub id: Seq<char>,
    pub keygen_params: KeyGenParams,
}

impl View for KeyGenRequest {
    type V = KeyGenRequestView;

    open spec fn view(&self) -> KeyGenRequestView {
        KeyGenRequestView { id: self.id@, keygen_params: self.keygen_params }
    }
}

impl Clone for KeyGenRequest {
    fn clone(&self) -> (request: KeyGenRequest)
        ensures
            request@ == self@,
    {
        KeyGenRequest { id: self.id.clone(), keygen_params: self.keygen_params }
    }
}

} // verus!
