//! The keep-alive interval a client asks for.

use vstd::prelude::*;

verus! {

/// A number of seconds that is not zero.
#[derive(Debug, Clone, Copy, PartialEq, Eq)]
pub struct NonZeroSeconds {
    value: u16,
}

impl View for NonZeroSeconds {
    type V = u16;

    closed spec fn view(&self) -> u16 {
        self.value
    }
}

impl NonZeroSeconds {
    #[verifier::type_invariant]
    spec fn value_is_nonzero(self) -> bool {
        self.value != 0
    }

    /// `value` seconds, unless `value` is zero.
    pub fn new(value: u16) -> (res: Option<NonZeroSeconds>)
        ensures
            value != 0 ==> (res matches Some(s) && s@ == value),
            value == 0 ==> res is None,
    {
        if value == 0 {
            None
        } else {
            Some(NonZeroSeconds { value })
        }
    }

    /// The number of seconds.
    pub fn get(&self) -> (res: u16)
        ensures
            res == self@,
            res != 0,
    {
        proof {
            use_type_invariant(self);
        }
        self.value
    }
}

/// How often the client promises to say something: never, or at least every
/// so many seconds.
#[derive(Debug, Clone, Copy, PartialEq, Eq)]
pub enum KeepAlive {
    Disabled,
    Seconds(NonZeroSeconds),
}

impl KeepAlive {
    /// The interval as a CONNECT carries it: 0 for disabled.
    pub open spec fn seconds(self) -> u16 {
        match self {
            KeepAlive::Disabled => 0,
            KeepAlive::Seconds(s) => s@,
        }
    }

    /// The interval as a CONNECT carries it: 0 for disabled.
    pub fn as_u16(&self) -> (res: u16)
        ensures
            res == self.seconds(),
    {
        match self {
            KeepAlive::Disabled => 0,
            KeepAlive::Seconds(s) => s.get(),
        }
    }

    /// The interval a CONNECT or CONNACK field of `value` seconds stands
    /// for: 0 disables it.
    pub fn from_u16(value: u16) -> (res: KeepAlive)
        ensures
            res.seconds() == value,
    {
        match NonZeroSeconds::new(value) {
            Some(s) => KeepAlive::Seconds(s),
            None => KeepAlive::Disabled,
        }
    }
}

} // verus!
