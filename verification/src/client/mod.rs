//! The client side: the record of unacknowledged packets and the decisions
//! taken when connecting and publishing.

pub mod builder;
pub mod connect;
pub mod receive;
pub mod send;
pub mod state;

use vstd::prelude::*;

use self::receive::Callbacks;
use self::state::{ConnectState, SessionState};

verus! {

/// What a client holds: its connection and its session once it has them,
/// and who waits for which answer of the server.
pub struct InnerClient {
    pub connection_state: Option<ConnectState>,
    pub session_state: Option<SessionState>,
    pub outstanding_callbacks: Callbacks,
}

impl InnerClient {
    /// A client that is not connected and waits for nothing.
    pub fn new() -> (res: InnerClient)
        ensures
            res.connection_state is None,
            res.session_state is None,
            res.outstanding_callbacks.pings().len() == 0,
            res.outstanding_callbacks.qos1_waiting().is_empty(),
            res.outstanding_callbacks.qos2_receive_waiting().is_empty(),
            res.outstanding_callbacks.qos2_complete_waiting().is_empty(),
    {
        InnerClient { connection_state: None, session_state: None, outstanding_callbacks: Callbacks::new() }
    }
}

} // verus!
