//! The server side: client identities, the messages routed between clients,
//! the per-client delivery state and the subscription table.

pub mod connection;
pub mod handler;
pub mod message;
pub mod state;
pub mod subscriptions;

use vstd::prelude::*;

verus! {

/// The identifier a client connected with; unique per server.
#[derive(Debug, Clone, PartialEq, Eq, Hash)]
pub struct ClientId(String);

impl View for ClientId {
    type V = Seq<char>;

    closed spec fn view(&self) -> Seq<char> {
        self.0@
    }
}

impl ClientId {
    /// The client identifier spelled `id`.
    pub fn new(id: String) -> (res: ClientId)
        ensures
            res@ == id@,
    {
        ClientId(id)
    }

    /// The identifier as text.
    pub fn as_str(&self) -> (res: &str)
        ensures
            res@ == self@,
    {
        self.0.as_str()
    }

    /// A copy of this identifier.
    pub fn duplicate(&self) -> (res: ClientId)
        ensures
            res == *self,
    {
        ClientId(self.0.clone())
    }

    /// Whether two identifiers name the same client.
    pub fn same_as(&self, other: &ClientId) -> (res: bool)
        ensures
            res == (self@ == other@),
    {
        self.0 == other.0
    }
}

/// An error that occurred while communicating with a client.
#[derive(Debug, PartialEq, Eq)]
pub enum ClientError {
    /// Sending or receiving a packet failed.
    Packet,
}

} // verus!
