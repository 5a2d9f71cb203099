//! The address at which a node's message server listens.

use vstd::prelude::*;

verus! {

/// A message server, known by the address it is to listen at.
pub struct CommunicationServer {
    address: String,
}

impl CommunicationServer {
    /// The address the server was made for.
    pub closed spec fn address_text(self) -> Seq<char> {
        self.address@
    }

    /// A server for `address`.
    pub fn new(address: &str) -> (server: Self)
        ensures
            server.address_text() == address@,
    {
        CommunicationServer { address: String::from_str(address) }
    }

    /// The address the server was made for.
    pub fn address(&self) -> (address: &String)
        ensures
            address@ == self.address_text(),
    {
        &self.address
    }
}

} // verus!
