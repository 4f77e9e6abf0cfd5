//! The opaque principal token that a handshake produces.

use vstd::prelude::*;

verus! {

/// A principal. Its payload is opaque to the protocol: it is compared,
/// carried and serialized, never interpreted.
#[derive(Debug, Clone)]
pub struct Identity {
    payload: String,
}

impl View for Identity {
    type V = Seq<char>;

    closed spec fn view(&self) -> Seq<char> {
        self.payload@
    }
}

impl Identity {
    /// An identity with the given payload.
    pub fn new(payload: String) -> (r: Identity)
        ensures
            r@ == payload@,
    {
        Identity { payload }
    }

    /// An identity that a process gives itself, named by `name`.
    pub fn local(name: &str) -> (r: Identity)
        ensures
            r@ == name@,
    {
        Identity { payload: name.to_owned() }
    }

    /// The payload.
    pub fn payload(&self) -> (r: &str)
        ensures
            r@ == self@,
    {
        self.payload.as_str()
    }

    /// Whether two identities name the same principal.
    pub fn same(&self, other: &Identity) -> (r: bool)
        ensures
            r == (self@ == other@),
    {
        self.payload == other.payload
    }
}

} // verus!
