//! Acknowledging the messages a client receives.

use vstd::prelude::*;

use crate::packets::MqttPacket;
use crate::qos::QualityOfService;

verus! {

/// The acknowledgement of a received message.
#[derive(Debug, PartialEq, Eq, Structural, Clone, Copy)]
pub struct Acknowledge;

/// The acknowledgement handler that acknowledges every message right away.
#[derive(Debug, PartialEq, Eq, Structural, Clone, Copy)]
pub struct NoOPAck;

impl NoOPAck {
    /// Acknowledges `packet` at once.
    pub fn handle(&self, packet: &MqttPacket) -> (res: Acknowledge)
        ensures
            res == Acknowledge,
    {
        Acknowledge
    }
}

/// Whether a received PUBLISH of level `qos` is handed to the acknowledgement
/// handler and kept: only one of level 1 or 2 is acknowledged.
pub fn needs_acknowledgement(qos: QualityOfService) -> (res: bool)
    ensures
        res == (qos != QualityOfService::AtMostOnce),
{
    !matches!(qos, QualityOfService::AtMostOnce)
}

} // verus!
