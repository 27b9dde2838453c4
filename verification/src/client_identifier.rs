//! The client identifier a client proposes when it connects.

use vstd::prelude::*;

use crate::string::{utf8_len, MqttString, MqttStringError};
use crate::util::chars_of;

verus! {

/// A character every server must accept in a client identifier: a digit or
/// an ASCII letter.
pub open spec fn allowed_char(c: char) -> bool {
    ('0' <= c <= '9') || ('a' <= c <= 'z') || ('A' <= c <= 'Z')
}

/// The characters allowed are the ten digits, the 26 lower-case and the 26
/// upper-case ASCII letters, counted by code point from `0`, `a` and `A`.
pub proof fn lemma_allowed_chars_are_ascii_alphanumeric(c: char)
    ensures
        allowed_char(c) <==> ({
            let n = c as u32 as int;
            ||| 48 <= n < 48 + 10
            ||| 97 <= n < 97 + 26
            ||| 65 <= n < 65 + 26
        }),
{
}

/// An identifier made only of digits and ASCII letters has no disallowed
/// character, so (with at most 23 bytes) it is a minimal one.
pub proof fn lemma_alphanumeric_has_no_disallowed(s: Seq<char>)
    requires
        forall|i: int|
            0 <= i < s.len() ==> {
                let n = (#[trigger] s[i]) as u32 as int;
                ||| 48 <= n < 48 + 10
                ||| 97 <= n < 97 + 26
                ||| 65 <= n < 65 + 26
            },
    ensures
        disallowed_chars(s).len() == 0,
    decreases s.len(),
{
    if s.len() > 0 {
        let init = s.drop_last();
        assert forall|i: int| 0 <= i < init.len() implies {
            let n = (#[trigger] init[i]) as u32 as int;
            ||| 48 <= n < 48 + 10
            ||| 97 <= n < 97 + 26
            ||| 65 <= n < 65 + 26
        } by {
            assert(init[i] == s[i]);
        }
        lemma_alphanumeric_has_no_disallowed(init);
        lemma_allowed_chars_are_ascii_alphanumeric(s.last());
        assert(s.last() == s[s.len() - 1]);
    }
}

/// The characters of `s` that are not [`allowed_char`], in order.
pub open spec fn disallowed_chars(s: Seq<char>) -> Seq<char>
    decreases s.len(),
{
    if s.len() == 0 {
        Seq::empty()
    } else if allowed_char(s.last()) {
        disallowed_chars(s.drop_last())
    } else {
        disallowed_chars(s.drop_last()).push(s.last())
    }
}

/// The client identifier a client proposes.
#[derive(Debug, PartialEq)]
pub enum ProposedClientIdentifier {
    /// One every server accepts: 1 to 23 digits and ASCII letters, or empty.
    MinimalRequired(MinimalRequiredClientIdentifier),
    /// None at all: the server is asked to assign one.
    PotentiallyServerProvided,
    /// Any non-empty one, which the server may refuse.
    PotentiallyAccepted(PotentiallyAcceptedClientIdentifier),
}

/// A client identifier every server accepts.
#[derive(Debug, PartialEq)]
pub struct MinimalRequiredClientIdentifier(MqttString);

/// A non-empty client identifier that the server may refuse.
#[derive(Debug, PartialEq)]
pub struct PotentiallyAcceptedClientIdentifier(MqttString);

/// Why a text cannot be the proposed client identifier.
#[derive(Debug, PartialEq)]
pub enum ClientIdentifierError {
    /// These characters (in order) are not digits or ASCII letters.
    MinimalNotAllowedChar(Vec<char>),
    /// It is this many bytes long, more than 23.
    MinimalTooLong(usize),
    /// It is empty.
    Zero,
    /// It is too long for an MQTT string.
    String(MqttStringError),
}

impl View for MinimalRequiredClientIdentifier {
    type V = Seq<char>;

    closed spec fn view(&self) -> Seq<char> {
        self.0@
    }
}

impl View for PotentiallyAcceptedClientIdentifier {
    type V = Seq<char>;

    closed spec fn view(&self) -> Seq<char> {
        self.0@
    }
}

impl View for ProposedClientIdentifier {
    type V = Seq<char>;

    /// The identifier as sent: empty when the server is to assign one.
    open spec fn view(&self) -> Seq<char> {
        match self {
            ProposedClientIdentifier::MinimalRequired(m) => m@,
            ProposedClientIdentifier::PotentiallyServerProvided => Seq::empty(),
            ProposedClientIdentifier::PotentiallyAccepted(p) => p@,
        }
    }
}

/// The characters of `chars` that are not [`allowed_char`].
fn collect_disallowed(chars: &Vec<char>) -> (res: Vec<char>)
    ensures
        res@ == disallowed_chars(chars@),
{
    let mut res: Vec<char> = Vec::new();
    let mut i: usize = 0;
    while i < chars.len()
        invariant
            i <= chars@.len(),
            res@ == disallowed_chars(chars@.subrange(0, i as int)),
        decreases chars@.len() - i,
    {
        let c = chars[i];
        let ghost prefix = chars@.subrange(0, i + 1);
        assert(prefix.drop_last() =~= chars@.subrange(0, i as int));
        let allowed = ('0' <= c && c <= '9') || ('a' <= c && c <= 'z') || ('A' <= c && c <= 'Z');
        if !allowed {
            res.push(c);
        }
        i = i + 1;
    }
    assert(chars@.subrange(0, chars@.len() as int) =~= chars@);
    res
}

impl ProposedClientIdentifier {
    /// An identifier every server accepts. Characters other than digits and
    /// ASCII letters are refused first (all of them are named), then more
    /// than 23 bytes.
    pub fn new_minimal_required(s: String) -> (res: Result<ProposedClientIdentifier, ClientIdentifierError>)
        ensures
            disallowed_chars(s@).len() > 0 ==> (res matches Err(
                ClientIdentifierError::MinimalNotAllowedChar(cs),
            ) && cs@ == disallowed_chars(s@)),
            disallowed_chars(s@).len() == 0 && utf8_len(s@) > 23 ==> (res matches Err(
                ClientIdentifierError::MinimalTooLong(n),
            ) && n == utf8_len(s@)),
            disallowed_chars(s@).len() == 0 && utf8_len(s@) <= 23 ==> (res matches Ok(
                ProposedClientIdentifier::MinimalRequired(m),
            ) && m@ == s@),
            (forall|i: int|
                0 <= i < s@.len() ==> {
                    let n = (#[trigger] s@[i]) as u32 as int;
                    ||| 48 <= n < 48 + 10
                    ||| 97 <= n < 97 + 26
                    ||| 65 <= n < 65 + 26
                }) && utf8_len(s@) <= 23 ==> (res matches Ok(ProposedClientIdentifier::MinimalRequired(m))
                && m@ == s@),
    {
        proof {
            if forall|i: int|
                0 <= i < s@.len() ==> {
                    let n = (#[trigger] s@[i]) as u32 as int;
                    ||| 48 <= n < 48 + 10
                    ||| 97 <= n < 97 + 26
                    ||| 65 <= n < 65 + 26
                } {
                lemma_alphanumeric_has_no_disallowed(s@);
            }
        }
        let chars = chars_of(s.as_str());
        let disallowed = collect_disallowed(&chars);
        if disallowed.len() > 0 {
            return Err(ClientIdentifierError::MinimalNotAllowedChar(disallowed));
        }
        let len = s.as_str().as_bytes().len();
        if len > 23 {
            return Err(ClientIdentifierError::MinimalTooLong(len));
        }
        match MqttString::try_from_string(s) {
            Ok(m) => Ok(ProposedClientIdentifier::MinimalRequired(MinimalRequiredClientIdentifier(m))),
            Err(e) => Err(ClientIdentifierError::String(e)),
        }
    }

    /// No identifier: the server is asked to assign one.
    pub fn new_potentially_server_provided() -> (res: ProposedClientIdentifier)
        ensures
            res is PotentiallyServerProvided,
    {
        ProposedClientIdentifier::PotentiallyServerProvided
    }

    /// Any non-empty identifier short enough for an MQTT string.
    pub fn new_potetially_accepted(s: String) -> (res: Result<ProposedClientIdentifier, ClientIdentifierError>)
        ensures
            s@.len() == 0 ==> res matches Err(ClientIdentifierError::Zero),
            s@.len() > 0 && utf8_len(s@) > 65535 ==> (res matches Err(
                ClientIdentifierError::String(MqttStringError::TooLong(n)),
            ) && n == utf8_len(s@)),
            s@.len() > 0 && utf8_len(s@) <= 65535 ==> (res matches Ok(
                ProposedClientIdentifier::PotentiallyAccepted(p),
            ) && p@ == s@),
    {
        if s.as_str().is_empty() {
            return Err(ClientIdentifierError::Zero);
        }
        match MqttString::try_from_string(s) {
            Ok(m) => Ok(ProposedClientIdentifier::PotentiallyAccepted(PotentiallyAcceptedClientIdentifier(m))),
            Err(e) => Err(ClientIdentifierError::String(e)),
        }
    }

    /// The identifier as sent: empty when the server is to assign one.
    pub fn as_str(&self) -> (res: &str)
        ensures
            res@ == self@,
    {
        match self {
            ProposedClientIdentifier::MinimalRequired(s) => s.0.as_ref(),
            ProposedClientIdentifier::PotentiallyServerProvided => {
                proof {
                    reveal_strlit("");
                }
                ""
            },
            ProposedClientIdentifier::PotentiallyAccepted(s) => s.0.as_ref(),
        }
    }
}

impl MinimalRequiredClientIdentifier {
    /// The identifier, taken out.
    pub fn into_inner(self) -> (res: MqttString)
        ensures
            res@ == self@,
    {
        self.0
    }
}

impl PotentiallyAcceptedClientIdentifier {
    /// The identifier, taken out.
    pub fn into_inner(self) -> (res: MqttString)
        ensures
            res@ == self@,
    {
        self.0
    }
}

} // verus!
