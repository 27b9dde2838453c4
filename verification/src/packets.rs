use vstd::prelude::*;

verus! {

/// One encoded MQTT control packet: the complete frame as it travels on the wire.
#[derive(Debug, Clone)]
pub struct MqttPacket {
    frame: Vec<u8>,
}

impl View for MqttPacket {
    type V = Seq<u8>;

    closed spec fn view(&self) -> Seq<u8> {
        self.frame@
    }
}

impl MqttPacket {
    /// Wraps the bytes of one complete frame.
    pub fn from_frame(frame: Vec<u8>) -> (res: MqttPacket)
        ensures
            res@ == frame@,
    {
        MqttPacket { frame }
    }

    /// The bytes of the frame.
    pub fn frame(&self) -> (res: &[u8])
        ensures
            res@ == self@,
    {
        self.frame.as_slice()
    }
}

} // verus!
