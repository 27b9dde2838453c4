//! User properties: key-value pairs of text carried in packet properties.

use vstd::prelude::*;

use crate::codecs::{encoded, write_variable_u32};
use crate::string::MqttString;

verus! {

/// The identifier of the user-property property.
pub const USER_PROPERTY_IDENTIFIER: u32 = 0x26;

/// A user property: a key and a value.
pub struct UserProperty {
    pub key: MqttString,
    pub value: MqttString,
}

/// The encoding of an MQTT string: its length in bytes, two bytes big
/// endian, then its UTF-8 bytes.
pub open spec fn string_encoding(s: Seq<char>) -> Seq<u8> {
    let bytes = vstd::utf8::encode_utf8(s);
    seq![(bytes.len() / 256) as u8, (bytes.len() % 256) as u8] + bytes
}

/// Appends the encoding of the MQTT string `s` to `out`.
fn write_string(out: &mut Vec<u8>, s: &MqttString)
    ensures
        final(out)@ == old(out)@ + string_encoding(s@),
{
    let bytes = s.as_bytes();
    let len = bytes.len();
    out.push((len / 256) as u8);
    out.push((len % 256) as u8);
    let mut i: usize = 0;
    let ghost start = out@;
    while i < len
        invariant
            i <= len == bytes@.len(),
            out@ == start + bytes@.subrange(0, i as int),
        decreases len - i,
    {
        out.push(bytes[i]);
        assert(bytes@.subrange(0, i + 1) =~= bytes@.subrange(0, i as int).push(bytes@[i as int]));
        i = i + 1;
    }
    assert(bytes@.subrange(0, len as int) =~= bytes@);
    assert(out@ =~= old(out)@ + string_encoding(s@));
}

/// The bytes that hold `property` after `before`: before every property but
/// the first comes its identifier.
pub open spec fn with_user_property(before: Seq<u8>, key: Seq<char>, value: Seq<char>) -> Seq<u8> {
    let separator = if before.len() == 0 {
        Seq::<u8>::empty()
    } else {
        encoded(USER_PROPERTY_IDENTIFIER)
    };
    before + separator + string_encoding(key) + string_encoding(value)
}

/// Adds `property` to the encoded user properties held in `inner`.
pub fn apply_user_property(inner: &mut Option<Vec<u8>>, property: UserProperty)
    ensures
        *final(inner) matches Some(bytes) && bytes@ == with_user_property(
            match *old(inner) {
                Some(b) => b@,
                None => Seq::<u8>::empty(),
            },
            property.key@,
            property.value@,
        ),
{
    let mut bytes = match inner.take() {
        Some(b) => b,
        None => Vec::new(),
    };
    let ghost before = bytes@;
    if bytes.len() > 0 {
        let mut identifier = write_variable_u32(USER_PROPERTY_IDENTIFIER);
        bytes.append(&mut identifier);
    }
    write_string(&mut bytes, &property.key);
    write_string(&mut bytes, &property.value);
    assert(bytes@ =~= with_user_property(before, property.key@, property.value@));
    *inner = Some(bytes);
}

} // verus!
