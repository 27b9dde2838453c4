use vstd::prelude::*;

verus! {

/// An MQTT packet identifier: a 16-bit value that is never zero.
#[derive(Debug, Clone, Copy, PartialEq, Eq, Hash, PartialOrd, Ord)]
pub struct PacketIdentifierNonZero {
    value: u16,
}

/// The name the client modules use for a (non-zero) packet identifier.
pub type PacketIdentifier = PacketIdentifierNonZero;

impl View for PacketIdentifierNonZero {
    type V = u16;

    closed spec fn view(&self) -> u16 {
        self.value
    }
}

impl PacketIdentifierNonZero {
    #[verifier::type_invariant]
    spec fn value_is_nonzero(self) -> bool {
        self.value != 0
    }

    /// The identifier's numeric value.
    pub fn get(&self) -> (res: u16)
        ensures
            res == self@,
            res != 0,
    {
        proof {
            use_type_invariant(self);
        }
        self.value
    }

    /// The identifier with value `value`, unless `value` is zero.
    pub fn new(value: u16) -> (res: Option<PacketIdentifierNonZero>)
        ensures
            value != 0 ==> (res matches Some(id) && id@ == value),
            value == 0 ==> res is None,
    {
        if value == 0 {
            None
        } else {
            Some(PacketIdentifierNonZero { value })
        }
    }

    /// The smallest identifier, `1`.
    pub fn min() -> (res: PacketIdentifierNonZero)
        ensures
            res@ == 1,
    {
        PacketIdentifierNonZero { value: 1 }
    }

    /// Converts a raw identifier taken from a packet; a zero identifier is refused.
    pub fn try_from_raw(value: u16) -> (res: Result<PacketIdentifierNonZero, ()>)
        ensures
            value != 0 ==> (res matches Ok(id) && id@ == value),
            value == 0 ==> res is Err,
    {
        match Self::new(value) {
            Some(id) => Ok(id),
            None => Err(()),
        }
    }

    /// The next identifier in the cyclic order 1, 2, ..., 65535, 1, ...
    pub fn wrapping_next(&self) -> (res: PacketIdentifierNonZero)
        ensures
            res@ == next_identifier_value(self@),
    {
        let v = self.get();
        if v == 65535 {
            PacketIdentifierNonZero { value: 1 }
        } else {
            PacketIdentifierNonZero { value: v + 1 }
        }
    }
}

/// The successor of a packet identifier value when identifiers are handed out cyclically.
pub open spec fn next_identifier_value(v: u16) -> u16 {
    if v == 65535 {
        1
    } else {
        (v + 1) as u16
    }
}

} // verus!
