use vstd::prelude::*;

verus! {

/// The largest number of bytes an MQTT binary data field may hold.
pub const MQTT_BYTES_MAX_LEN: usize = 65535;

/// Binary data as carried in MQTT packets: at most `u16::MAX` bytes.
#[derive(Clone, PartialEq, Eq, Hash, PartialOrd, Ord)]
pub struct MqttBytes(Vec<u8>);

/// Why a byte vector could not become [`MqttBytes`].
#[derive(Debug, PartialEq, Eq)]
pub enum MqttBytesError {
    /// The given length exceeds [`MQTT_BYTES_MAX_LEN`].
    TooLong(usize),
}

impl View for MqttBytes {
    type V = Seq<u8>;

    closed spec fn view(&self) -> Seq<u8> {
        self.0@
    }
}

impl MqttBytes {
    pub const MAX_LEN: usize = 65535;

    /// Wraps `s` when it fits into an MQTT binary data field.
    pub fn try_from_vec(s: Vec<u8>) -> (res: Result<MqttBytes, MqttBytesError>)
        ensures
            s.len() <= MQTT_BYTES_MAX_LEN ==> (res matches Ok(b) && b@ == s@),
            s.len() > MQTT_BYTES_MAX_LEN ==> res == Err::<MqttBytes, _>(MqttBytesError::TooLong(s.len())),
    {
        if s.len() > Self::MAX_LEN {
            Err(MqttBytesError::TooLong(s.len()))
        } else {
            Ok(MqttBytes(s))
        }
    }

    /// Copies `s` when it fits into an MQTT binary data field.
    pub fn try_from_slice(s: &[u8]) -> (res: Result<MqttBytes, MqttBytesError>)
        ensures
            s@.len() <= MQTT_BYTES_MAX_LEN ==> (res matches Ok(b) && b@ == s@),
            s@.len() > MQTT_BYTES_MAX_LEN ==> res == Err::<MqttBytes, _>(MqttBytesError::TooLong(s@.len() as usize)),
    {
        if s.len() > Self::MAX_LEN {
            Err(MqttBytesError::TooLong(s.len()))
        } else {
            Ok(MqttBytes(crate::util::copy_bytes(s)))
        }
    }

    /// The wrapped bytes.
    pub fn as_ref(&self) -> (res: &[u8])
        ensures
            res@ == self@,
    {
        self.0.as_slice()
    }
}

} // verus!
