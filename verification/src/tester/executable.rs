//! The client binary under test, and the commands the tester hands it on its
//! command line.

use std::path::PathBuf;

use vstd::prelude::*;
use vstd::string::StringExecFns;

verus! {

#[verifier::external_type_specification]
#[verifier::external_body]
pub struct ExPathBuf(PathBuf);

/// The client binary the tester runs.
pub struct ClientExecutable {
    path: PathBuf,
}

impl ClientExecutable {
    /// Where the binary is.
    pub closed spec fn location(&self) -> PathBuf {
        self.path
    }

    /// The client binary at `path`.
    pub fn new(path: PathBuf) -> (res: ClientExecutable)
        ensures
            res.location() == path,
    {
        ClientExecutable { path }
    }

    /// Where the binary is.
    pub fn path(&self) -> (res: &PathBuf)
        ensures
            *res == self.location(),
    {
        &self.path
    }
}

/// A command the client binary understands: its name, then its arguments.
pub trait ClientExecutableCommand {
    /// The command's name.
    spec fn name(&self) -> Seq<char>;

    /// The command's arguments.
    spec fn arguments(&self) -> Seq<Seq<char>>;

    /// The command's name.
    fn as_str(&self) -> (res: &'static str)
        ensures
            res@ == self.name(),
    ;

    /// The command's arguments.
    fn args(&self) -> (res: Vec<String>)
        ensures
            res@.map_values(|s: String| s@) == self.arguments(),
    ;
}

/// The words a command puts on the command line: its name, then its arguments.
pub fn command_words<C: ClientExecutableCommand + ?Sized>(command: &C) -> (res: Vec<String>)
    ensures
        res@.map_values(|s: String| s@) == seq![command.name()] + command.arguments(),
{
    let mut words: Vec<String> = Vec::new();
    words.push(String::from_str(command.as_str()));
    let mut args = command.args();
    words.append(&mut args);
    assert(words@.map_values(|s: String| s@) =~= seq![command.name()] + command.arguments());
    words
}

/// The words of `word_lists`, one list after the other.
pub open spec fn joined(word_lists: Seq<Vec<String>>) -> Seq<Seq<char>>
    decreases word_lists.len(),
{
    if word_lists.len() == 0 {
        Seq::empty()
    } else {
        word_lists[0]@.map_values(|s: String| s@) + joined(word_lists.drop_first())
    }
}

/// The command line of several commands: the words of each (see
/// [`command_words`]), one command after the other.
pub fn command_line(commands: Vec<Vec<String>>) -> (res: Vec<String>)
    ensures
        res@.map_values(|s: String| s@) == joined(commands@),
{
    let ghost all = commands@;
    let mut rest = commands;
    let mut res: Vec<String> = Vec::new();
    while rest.len() > 0
        invariant
            res@.map_values(|s: String| s@) + joined(rest@) == joined(all),
        decreases rest@.len(),
    {
        let ghost before = res@;
        let ghost rest_before = rest@;
        let mut words = rest.remove(0);
        let ghost added = words@;
        res.append(&mut words);
        proof {
            assert(rest@ =~= rest_before.drop_first());
            assert(res@ =~= before + added);
            assert(res@.map_values(|s: String| s@) =~= before.map_values(|s: String| s@) + added.map_values(
                |s: String| s@,
            ));
            assert(before.map_values(|s: String| s@) + joined(rest_before) =~= res@.map_values(|s: String| s@)
                + joined(rest@));
        }
    }
    assert(res@.map_values(|s: String| s@) + joined(rest@) =~= res@.map_values(|s: String| s@));
    res
}

/// The character of a decimal digit.
pub open spec fn digit_char(d: int) -> char {
    if d == 0 {
        '0'
    } else if d == 1 {
        '1'
    } else if d == 2 {
        '2'
    } else if d == 3 {
        '3'
    } else if d == 4 {
        '4'
    } else if d == 5 {
        '5'
    } else if d == 6 {
        '6'
    } else if d == 7 {
        '7'
    } else if d == 8 {
        '8'
    } else {
        '9'
    }
}

/// `n` written in decimal, without leading zeros.
pub open spec fn decimal(n: nat) -> Seq<char>
    decreases n,
{
    if n < 10 {
        seq![digit_char(n as int)]
    } else {
        decimal(n / 10).push(digit_char((n % 10) as int))
    }
}

/// The one-character text of the digit `d`.
fn digit_str(d: u8) -> (res: &'static str)
    requires
        d < 10,
    ensures
        res@ == seq![digit_char(d as int)],
{
    proof {
        reveal_strlit("0");
        reveal_strlit("1");
        reveal_strlit("2");
        reveal_strlit("3");
        reveal_strlit("4");
        reveal_strlit("5");
        reveal_strlit("6");
        reveal_strlit("7");
        reveal_strlit("8");
        reveal_strlit("9");
    }
    match d {
        0 => "0",
        1 => "1",
        2 => "2",
        3 => "3",
        4 => "4",
        5 => "5",
        6 => "6",
        7 => "7",
        8 => "8",
        _ => "9",
    }
}

/// `n` written in decimal.
pub fn decimal_string(n: u8) -> (res: String)
    ensures
        res@ == decimal(n as nat),
{
    if n < 10 {
        String::from_str(digit_str(n))
    } else if n < 100 {
        assert(decimal(n as nat) == decimal((n / 10) as nat).push(digit_char((n % 10) as int)));
        String::from_str(digit_str(n / 10)).concat(digit_str(n % 10))
    } else {
        assert(decimal(n as nat) == decimal((n / 10) as nat).push(digit_char((n % 10) as int)));
        assert(decimal((n / 10) as nat) == decimal((n / 100) as nat).push(
            digit_char(((n / 10) % 10) as int),
        ));
        String::from_str(digit_str(n / 100)).concat(digit_str((n / 10) % 10)).concat(
            digit_str(n % 10),
        )
    }
}

/// `prefix` followed by `value`.
fn prefixed(prefix: &str, value: &str) -> (res: String)
    ensures
        res@ == prefix@ + value@,
{
    String::from_str(prefix).concat(value)
}

/// Tells the client to quit.
pub struct QuitCommand;

/// Tells the client to subscribe to `topic`.
pub struct Subscribe {
    pub topic: String,
}

/// Tells the client to publish `message` to `topic` with delivery level `qos`.
pub struct SendToTopic {
    pub topic: String,
    pub qos: u8,
    pub message: String,
}

/// Tells the client to wait for a message on `topic` with delivery level `qos`.
pub struct ExpectOnTopic {
    pub topic: String,
    pub qos: u8,
}

impl ClientExecutableCommand for QuitCommand {
    open spec fn name(&self) -> Seq<char> {
        seq!['q', 'u', 'i', 't']
    }

    open spec fn arguments(&self) -> Seq<Seq<char>> {
        Seq::empty()
    }

    fn as_str(&self) -> (res: &'static str) {
        proof {
            reveal_strlit("quit");
        }
        "quit"
    }

    fn args(&self) -> (res: Vec<String>) {
        let res: Vec<String> = Vec::new();
        assert(res@.map_values(|s: String| s@) =~= Seq::<Seq<char>>::empty());
        res
    }
}

impl ClientExecutableCommand for Subscribe {
    open spec fn name(&self) -> Seq<char> {
        seq!['s', 'u', 'b', 's', 'c', 'r', 'i', 'b', 'e']
    }

    open spec fn arguments(&self) -> Seq<Seq<char>> {
        seq![seq!['-', '-', 't', 'o', 'p', 'i', 'c', '='] + self.topic@]
    }

    fn as_str(&self) -> (res: &'static str) {
        proof {
            reveal_strlit("subscribe");
        }
        "subscribe"
    }

    fn args(&self) -> (res: Vec<String>) {
        proof {
            reveal_strlit("--topic=");
            assert("--topic="@ =~= seq!['-', '-', 't', 'o', 'p', 'i', 'c', '=']);
        }
        let mut res: Vec<String> = Vec::new();
        res.push(prefixed("--topic=", self.topic.as_str()));
        assert(res@.map_values(|s: String| s@) =~= self.arguments());
        res
    }
}

impl ClientExecutableCommand for SendToTopic {
    open spec fn name(&self) -> Seq<char> {
        seq!['s', 'e', 'n', 'd', '-', 't', 'o', '-', 't', 'o', 'p', 'i', 'c']
    }

    open spec fn arguments(&self) -> Seq<Seq<char>> {
        seq![
            seq!['-', '-', 't', 'o', 'p', 'i', 'c', '='] + self.topic@,
            seq!['-', '-', 'q', 'o', 's', '='] + decimal(self.qos as nat),
            seq!['-', '-', 'm', 'e', 's', 's', 'a', 'g', 'e', '='] + self.message@,
        ]
    }

    fn as_str(&self) -> (res: &'static str) {
        proof {
            reveal_strlit("send-to-topic");
        }
        "send-to-topic"
    }

    fn args(&self) -> (res: Vec<String>) {
        proof {
            reveal_strlit("--topic=");
            reveal_strlit("--qos=");
            reveal_strlit("--message=");
            assert("--topic="@ =~= seq!['-', '-', 't', 'o', 'p', 'i', 'c', '=']);
            assert("--qos="@ =~= seq!['-', '-', 'q', 'o', 's', '=']);
            assert("--message="@ =~= seq!['-', '-', 'm', 'e', 's', 's', 'a', 'g', 'e', '=']);
        }
        let qos = decimal_string(self.qos);
        let mut res: Vec<String> = Vec::new();
        res.push(prefixed("--topic=", self.topic.as_str()));
        res.push(prefixed("--qos=", qos.as_str()));
        res.push(prefixed("--message=", self.message.as_str()));
        assert(res@.map_values(|s: String| s@) =~= self.arguments());
        res
    }
}

impl ClientExecutableCommand for ExpectOnTopic {
    open spec fn name(&self) -> Seq<char> {
        seq!['e', 'x', 'p', 'e', 'c', 't', '-', 'o', 'n', '-', 't', 'o', 'p', 'i', 'c']
    }

    open spec fn arguments(&self) -> Seq<Seq<char>> {
        seq![
            seq!['-', '-', 't', 'o', 'p', 'i', 'c', '='] + self.topic@,
            seq!['-', '-', 'q', 'o', 's', '='] + decimal(self.qos as nat),
        ]
    }

    fn as_str(&self) -> (res: &'static str) {
        proof {
            reveal_strlit("expect-on-topic");
        }
        "expect-on-topic"
    }

    fn args(&self) -> (res: Vec<String>) {
        proof {
            reveal_strlit("--topic=");
            reveal_strlit("--qos=");
            assert("--topic="@ =~= seq!['-', '-', 't', 'o', 'p', 'i', 'c', '=']);
            assert("--qos="@ =~= seq!['-', '-', 'q', 'o', 's', '=']);
        }
        let qos = decimal_string(self.qos);
        let mut res: Vec<String> = Vec::new();
        res.push(prefixed("--topic=", self.topic.as_str()));
        res.push(prefixed("--qos=", qos.as_str()));
        assert(res@.map_values(|s: String| s@) =~= self.arguments());
        res
    }
}

} // verus!
