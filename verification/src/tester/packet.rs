//! Reading a packet the client under test sent.

use vstd::prelude::*;

pub use crate::frame::{v3_packet, PacketView, ParsedPacket};

use crate::frame::parse_packet;

verus! {

/// Reads `bytes` as exactly one MQTT 3.1.1 packet; `None` when they are not.
pub fn parse_client_packet<'a>(bytes: &'a [u8]) -> (res: Option<ParsedPacket<'a>>)
    ensures
        v3_packet(bytes@) == match res {
            Some(p) => Some(p@),
            None => None,
        },
{
    parse_packet(bytes)
}

} // verus!
