use vstd::prelude::*;

verus! {

/// The MQTT delivery guarantee of a message.
#[derive(Debug, PartialEq, Eq, Structural, PartialOrd, Clone, Copy)]
pub enum QualityOfService {
    AtMostOnce,
    AtLeastOnce,
    ExactlyOnce,
}

impl QualityOfService {
    /// The numeric level of the guarantee: 0, 1 or 2.
    pub open spec fn level(self) -> u8 {
        match self {
            QualityOfService::AtMostOnce => 0,
            QualityOfService::AtLeastOnce => 1,
            QualityOfService::ExactlyOnce => 2,
        }
    }

    /// The two-bit value that encodes this level in a packet.
    pub fn to_byte(self) -> (res: u8)
        ensures
            res == self.level(),
    {
        match self {
            QualityOfService::AtMostOnce => 0,
            QualityOfService::AtLeastOnce => 1,
            QualityOfService::ExactlyOnce => 2,
        }
    }

    /// The level encoded by `byte`: 0, 1 or 2; `None` for any other value.
    pub fn from_byte(byte: u8) -> (res: Option<QualityOfService>)
        ensures
            byte <= 2 ==> (res matches Some(q) && q.level() == byte),
            byte > 2 ==> res is None,
    {
        match byte {
            0 => Some(QualityOfService::AtMostOnce),
            1 => Some(QualityOfService::AtLeastOnce),
            2 => Some(QualityOfService::ExactlyOnce),
            _ => None,
        }
    }

    /// The weaker of two levels.
    pub fn min(self, other: QualityOfService) -> (res: QualityOfService)
        ensures
            res.level() == if self.level() <= other.level() { self.level() } else { other.level() },
            res == self || res == other,
    {
        if self.to_byte() <= other.to_byte() {
            self
        } else {
            other
        }
    }
}

} // verus!
