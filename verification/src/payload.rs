//! Payloads of published messages.

use vstd::prelude::*;

use crate::codecs::VARIABLE_INTEGER_MAX;

verus! {

/// A message payload: at most [`VARIABLE_INTEGER_MAX`] bytes.
#[derive(Debug)]
pub struct MqttPayload(Vec<u8>);

/// Why bytes cannot be a payload.
#[derive(Debug, PartialEq, Eq, Structural, Clone, Copy)]
pub enum MqttPayloadError {
    /// There are `given` bytes, more than [`VARIABLE_INTEGER_MAX`].
    Length { given: usize },
}

impl View for MqttPayload {
    type V = Seq<u8>;

    closed spec fn view(&self) -> Seq<u8> {
        self.0@
    }
}

impl MqttPayload {
    /// `value` as a payload, unless it is longer than [`VARIABLE_INTEGER_MAX`] bytes.
    pub fn try_from_vec(value: Vec<u8>) -> (res: Result<MqttPayload, MqttPayloadError>)
        ensures
            value@.len() <= VARIABLE_INTEGER_MAX ==> (res matches Ok(p) && p@ == value@),
            value@.len() > VARIABLE_INTEGER_MAX ==> res == Err::<MqttPayload, MqttPayloadError>(
                MqttPayloadError::Length { given: value@.len() as usize },
            ),
    {
        if value.len() > VARIABLE_INTEGER_MAX as usize {
            Err(MqttPayloadError::Length { given: value.len() })
        } else {
            Ok(MqttPayload(value))
        }
    }

    /// The payload bytes.
    pub fn as_ref(&self) -> (res: &[u8])
        ensures
            res@ == self@,
    {
        self.0.as_slice()
    }
}

} // verus!
