//! Topic names a message is published to.

use vstd::prelude::*;

use crate::string::{utf8_len, MqttString, MqttStringError};
use crate::util::chars_of;

verus! {

/// A topic name: not empty, without NUL and without wildcard characters, and
/// short enough for an MQTT string.
#[derive(Debug)]
pub struct MqttTopic(MqttString);

/// Why a text is not a topic name.
#[derive(Debug, PartialEq, Eq, Structural, Clone, Copy)]
pub enum MqttTopicError {
    /// It is too long for an MQTT string.
    String(MqttStringError),
    /// It is empty.
    Empty,
    /// It holds a NUL character (U+0000).
    Null,
    /// It holds a wildcard character, `#` or `+`.
    Wildcard,
}

impl View for MqttTopic {
    type V = Seq<char>;

    closed spec fn view(&self) -> Seq<char> {
        self.0@
    }
}

/// Whether any of the characters is `c`.
fn has_char(chars: &Vec<char>, c: char) -> (res: bool)
    ensures
        res == chars@.contains(c),
{
    let mut i: usize = 0;
    while i < chars.len()
        invariant
            i <= chars@.len(),
            forall|j: int| 0 <= j < i ==> chars@[j] != c,
        decreases chars@.len() - i,
    {
        if chars[i] == c {
            return true;
        }
        i = i + 1;
    }
    false
}

impl MqttTopic {
    /// Reads a topic name, checking in this order: not empty, no NUL, no
    /// wildcard, short enough.
    pub fn from_str(s: &str) -> (res: Result<MqttTopic, MqttTopicError>)
        ensures
            s@.len() == 0 ==> res == Err::<MqttTopic, MqttTopicError>(MqttTopicError::Empty),
            s@.len() > 0 && s@.contains('\0') ==> res == Err::<MqttTopic, MqttTopicError>(
                MqttTopicError::Null,
            ),
            s@.len() > 0 && !s@.contains('\0') && (s@.contains('#') || s@.contains('+')) ==> res
                == Err::<MqttTopic, MqttTopicError>(MqttTopicError::Wildcard),
            s@.len() > 0 && !s@.contains('\0') && !s@.contains('#') && !s@.contains('+') ==> {
                &&& utf8_len(s@) <= 65535 ==> (res matches Ok(t) && t@ == s@)
                &&& utf8_len(s@) > 65535 ==> (res matches Err(
                    MqttTopicError::String(MqttStringError::TooLong(n)),
                ) && n == utf8_len(s@))
            },
    {
        let chars = chars_of(s);
        if chars.len() == 0 {
            return Err(MqttTopicError::Empty);
        }
        if has_char(&chars, '\0') {
            return Err(MqttTopicError::Null);
        }
        if has_char(&chars, '#') || has_char(&chars, '+') {
            return Err(MqttTopicError::Wildcard);
        }
        match MqttString::try_from_str(s) {
            Ok(m) => Ok(MqttTopic(m)),
            Err(e) => Err(MqttTopicError::String(e)),
        }
    }

    /// The topic name as text.
    pub fn as_ref(&self) -> (res: &str)
        ensures
            res@ == self@,
    {
        self.0.as_ref()
    }
}

impl std::str::FromStr for MqttTopic {
    type Err = MqttTopicError;

    fn from_str(s: &str) -> (res: Result<MqttTopic, MqttTopicError>)
        ensures
            s@.len() == 0 ==> res == Err::<MqttTopic, MqttTopicError>(MqttTopicError::Empty),
            s@.len() > 0 && s@.contains('\0') ==> res == Err::<MqttTopic, MqttTopicError>(
                MqttTopicError::Null,
            ),
            s@.len() > 0 && !s@.contains('\0') && (s@.contains('#') || s@.contains('+')) ==> res
                == Err::<MqttTopic, MqttTopicError>(MqttTopicError::Wildcard),
            s@.len() > 0 && !s@.contains('\0') && !s@.contains('#') && !s@.contains('+') ==> {
                &&& utf8_len(s@) <= 65535 ==> (res matches Ok(t) && t@ == s@)
                &&& utf8_len(s@) > 65535 ==> (res matches Err(
                    MqttTopicError::String(MqttStringError::TooLong(n)),
                ) && n == utf8_len(s@))
            },
    {
        MqttTopic::from_str(s)
    }
}

} // verus!
