//! MQTT UTF-8 strings: at most 65535 bytes long.

use vstd::prelude::*;
use vstd::string::StringExecFns;

verus! {

/// The number of bytes of the UTF-8 encoding of `s`.
pub open spec fn utf8_len(s: Seq<char>) -> nat {
    vstd::utf8::encode_utf8(s).len()
}

/// A string that fits an MQTT packet: its UTF-8 encoding is at most
/// [`MqttString::MAX_LEN`] bytes long.
#[derive(Debug, Eq, PartialEq, Hash, Ord, PartialOrd)]
pub struct MqttString(String);

/// Why a string does not fit an MQTT packet.
#[derive(Debug, PartialEq, Eq, Structural, Clone, Copy)]
pub enum MqttStringError {
    /// It is this many bytes long, more than [`MqttString::MAX_LEN`].
    TooLong(usize),
}

impl View for MqttString {
    type V = Seq<char>;

    closed spec fn view(&self) -> Seq<char> {
        self.0@
    }
}

impl MqttString {
    /// The longest encoding an MQTT string may have, in bytes.
    pub const MAX_LEN: usize = 65535;

    #[verifier::type_invariant]
    spec fn fits(&self) -> bool {
        utf8_len(self.0@) <= 65535
    }

    /// The bytes of the UTF-8 encoding.
    pub fn as_bytes(&self) -> (res: &[u8])
        ensures
            res@ == vstd::utf8::encode_utf8(self@),
            res@.len() <= 65535,
    {
        proof {
            use_type_invariant(self);
        }
        self.0.as_str().as_bytes()
    }

    /// `s`, unless its encoding is longer than [`MqttString::MAX_LEN`] bytes.
    pub fn try_from_str(s: &str) -> (res: Result<MqttString, MqttStringError>)
        ensures
            utf8_len(s@) <= 65535 ==> (res matches Ok(m) && m@ == s@),
            utf8_len(s@) > 65535 ==> (res matches Err(MqttStringError::TooLong(n)) && n == utf8_len(
                s@,
            )),
    {
        let len = s.as_bytes().len();
        if len > Self::MAX_LEN {
            Err(MqttStringError::TooLong(len))
        } else {
            Ok(MqttString(String::from_str(s)))
        }
    }

    /// `s`, unless its encoding is longer than [`MqttString::MAX_LEN`] bytes.
    pub fn try_from_string(s: String) -> (res: Result<MqttString, MqttStringError>)
        ensures
            utf8_len(s@) <= 65535 ==> (res matches Ok(m) && m@ == s@),
            utf8_len(s@) > 65535 ==> (res matches Err(MqttStringError::TooLong(n)) && n == utf8_len(
                s@,
            )),
    {
        let len = s.as_str().as_bytes().len();
        if len > Self::MAX_LEN {
            Err(MqttStringError::TooLong(len))
        } else {
            Ok(MqttString(s))
        }
    }

    /// The text.
    pub fn as_ref(&self) -> (res: &str)
        ensures
            res@ == self@,
    {
        self.0.as_str()
    }
}

impl std::str::FromStr for MqttString {
    type Err = MqttStringError;

    fn from_str(s: &str) -> (res: Result<MqttString, MqttStringError>)
        ensures
            utf8_len(s@) <= 65535 ==> (res matches Ok(m) && m@ == s@),
            utf8_len(s@) > 65535 ==> (res matches Err(MqttStringError::TooLong(n)) && n == utf8_len(
                s@,
            )),
    {
        MqttString::try_from_str(s)
    }
}

} // verus!
