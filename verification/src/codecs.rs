//! Framing of MQTT packets on a byte stream.
//!
//! Every packet starts with one byte of fixed header, followed by the length
//! of the rest of the packet as a variable byte integer: seven bits per byte,
//! least significant group first, the top bit of a byte set when another
//! byte follows, at most four bytes.

use vstd::prelude::*;

verus! {

/// The largest value a variable byte integer can hold.
pub const VARIABLE_INTEGER_MAX: u32 = 268_435_455;

/// `128` to the power `k`.
pub open spec fn pow128(k: nat) -> nat
    decreases k,
{
    if k == 0 {
        1
    } else {
        128 * pow128((k - 1) as nat)
    }
}

/// The powers of 128 that four bytes need.
pub proof fn lemma_pow128_values()
    ensures
        pow128(0) == 1,
        pow128(1) == 128,
        pow128(2) == 16384,
        pow128(3) == 2097152,
        pow128(4) == 268435456,
{
    reveal_with_fuel(pow128, 5);
}

/// Whether the byte says that another byte of the integer follows.
pub open spec fn continues(b: u8) -> bool {
    b >= 128
}

/// The value of the bytes of a variable byte integer: the low seven bits of
/// byte `k` count `128^k` times.
pub open spec fn var_int_value(bytes: Seq<u8>) -> nat
    decreases bytes.len(),
{
    if bytes.len() == 0 {
        0
    } else {
        var_int_value(bytes.drop_last()) + (bytes.last() % 128) as nat * pow128(
            (bytes.len() - 1) as nat,
        )
    }
}

/// How many bytes the encoding of `value` takes.
pub open spec fn variable_size(value: u32) -> u32 {
    if value < 128 {
        1
    } else if value < 16_384 {
        2
    } else if value < 2_097_152 {
        3
    } else {
        4
    }
}

/// The encoding of `value` as a variable byte integer.
pub open spec fn encoded(value: u32) -> Seq<u8> {
    if value < 128 {
        seq![value as u8]
    } else if value < 16_384 {
        seq![(value % 128 + 128) as u8, (value / 128) as u8]
    } else if value < 2_097_152 {
        seq![(value % 128 + 128) as u8, ((value / 128) % 128 + 128) as u8, (value / 16_384) as u8]
    } else {
        seq![
            (value % 128 + 128) as u8,
            ((value / 128) % 128 + 128) as u8,
            ((value / 16_384) % 128 + 128) as u8,
            (value / 2_097_152) as u8,
        ]
    }
}

/// What reading a variable byte integer at the start of some bytes gives.
#[derive(Debug, PartialEq, Eq, Structural, Clone, Copy)]
pub enum VariableIntegerParse {
    /// The integer `value`, encoded in the first `len` bytes.
    Value { value: u32, len: usize },
    /// The bytes end before the integer does.
    Incomplete,
    /// The first four bytes all say that another one follows.
    Invalid,
}

/// Reads a variable byte integer at the start of `input`.
pub fn parse_variable_u32(input: &[u8]) -> (res: VariableIntegerParse)
    ensures
        match res {
            VariableIntegerParse::Value { value, len } => {
                &&& 1 <= len <= 4
                &&& len <= input@.len()
                &&& !continues(input@[len - 1])
                &&& forall|j: int| 0 <= j < len - 1 ==> continues(#[trigger] input@[j])
                &&& value == var_int_value(input@.subrange(0, len as int))
            },
            VariableIntegerParse::Incomplete => {
                &&& input@.len() < 4
                &&& forall|j: int| 0 <= j < input@.len() ==> continues(#[trigger] input@[j])
            },
            VariableIntegerParse::Invalid => {
                &&& input@.len() >= 4
                &&& forall|j: int| 0 <= j < 4 ==> continues(#[trigger] input@[j])
            },
        },
{
    let mut value: u32 = 0;
    let mut multiplier: u32 = 1;
    let mut i: usize = 0;
    while i < 4
        invariant
            i <= 4,
            i <= input@.len(),
            i < 4 ==> multiplier == pow128(i as nat),
            value == var_int_value(input@.subrange(0, i as int)),
            value < pow128(i as nat),
            forall|j: int| 0 <= j < i ==> continues(#[trigger] input@[j]),
        decreases 4 - i,
    {
        if i == input.len() {
            return VariableIntegerParse::Incomplete;
        }
        let b = input[i];
        proof {
            lemma_pow128_values();
            let s = input@.subrange(0, i + 1);
            assert(s.drop_last() =~= input@.subrange(0, i as int));
            assert(s.last() == b);
            assert((b % 128) * multiplier <= 127 * multiplier) by (nonlinear_arith)
                requires
                    b % 128 <= 127,
            ;
        }
        value = value + (b % 128) as u32 * multiplier;
        if b < 128 {
            return VariableIntegerParse::Value { value, len: i + 1 };
        }
        if i < 3 {
            multiplier = multiplier * 128;
        }
        i = i + 1;
    }
    VariableIntegerParse::Invalid
}

/// How many bytes the encoding of `value` takes.
pub fn variable_u32_binary_size(value: u32) -> (res: u32)
    ensures
        res == variable_size(value),
        value <= VARIABLE_INTEGER_MAX ==> value < pow128(res as nat) && (res == 1 || value >= pow128(
            (res - 1) as nat,
        )),
{
    proof {
        if value <= VARIABLE_INTEGER_MAX {
            lemma_encoding_is_minimal(value);
        }
    }
    if value < 128 {
        1
    } else if value < 16_384 {
        2
    } else if value < 2_097_152 {
        3
    } else {
        4
    }
}

/// Encodes `value` as a variable byte integer.
pub fn write_variable_u32(value: u32) -> (res: Vec<u8>)
    requires
        value <= VARIABLE_INTEGER_MAX,
    ensures
        res@ == encoded(value),
{
    let mut res: Vec<u8> = Vec::new();
    if value < 128 {
        res.push(value as u8);
    } else if value < 16_384 {
        res.push((value % 128 + 128) as u8);
        res.push((value / 128) as u8);
    } else if value < 2_097_152 {
        res.push((value % 128 + 128) as u8);
        res.push(((value / 128) % 128 + 128) as u8);
        res.push((value / 16_384) as u8);
    } else {
        res.push((value % 128 + 128) as u8);
        res.push(((value / 128) % 128 + 128) as u8);
        res.push(((value / 16_384) % 128 + 128) as u8);
        res.push((value / 2_097_152) as u8);
    }
    assert(res@ =~= encoded(value));
    res
}

/// What the bytes received so far hold.
#[derive(Debug, PartialEq, Eq, Structural, Clone, Copy)]
pub enum FrameDecision {
    /// Not a whole packet yet: at least this many more bytes are needed.
    NeedMore(usize),
    /// The first this many bytes are one whole packet.
    Frame(usize),
    /// The length after the fixed header is not a valid variable byte integer.
    ProtocolError,
}

/// The length of the packet whose remaining length reads `value`: the fixed
/// header byte, the bytes that encode `value`, and `value` bytes more.
pub open spec fn frame_length(value: u32) -> int {
    1 + variable_size(value) + value
}

/// Decides whether `buffer` starts with a whole packet. Under two bytes
/// there is not even a header; otherwise the remaining length is read from
/// the second byte on, and the packet is whole when the buffer is at least
/// as long as [`frame_length`] says.
pub fn decide_frame(buffer: &[u8]) -> (res: FrameDecision)
    ensures
        buffer@.len() < 2 ==> res == FrameDecision::NeedMore((2 - buffer@.len()) as usize),
        buffer@.len() >= 2 ==> match parse_result(buffer@.subrange(1, buffer@.len() as int)) {
            VariableIntegerParse::Value { value, .. } => if buffer@.len() < frame_length(value) {
                res == FrameDecision::NeedMore((frame_length(value) - buffer@.len()) as usize)
            } else {
                res == FrameDecision::Frame(frame_length(value) as usize)
            },
            VariableIntegerParse::Incomplete => res == FrameDecision::NeedMore(1),
            VariableIntegerParse::Invalid => res == FrameDecision::ProtocolError,
        },
{
    let len = buffer.len();
    if len < 2 {
        return FrameDecision::NeedMore(2 - len);
    }
    let rest = vstd::slice::slice_subrange(buffer, 1, len);
    let parsed = parse_variable_u32(rest);
    proof {
        lemma_parse_result(rest@, parsed);
    }
    match parsed {
        VariableIntegerParse::Value { value, .. } => {
            proof {
                lemma_value_bound(rest@, parsed);
            }
            let total: usize = 1 + variable_u32_binary_size(value) as usize + value as usize;
            if len < total {
                FrameDecision::NeedMore(total - len)
            } else {
                FrameDecision::Frame(total)
            }
        },
        VariableIntegerParse::Incomplete => FrameDecision::NeedMore(1),
        VariableIntegerParse::Invalid => FrameDecision::ProtocolError,
    }
}

/// The first index below 4 whose byte ends the integer, or the number of
/// bytes looked at (up to 4) when none does.
pub open spec fn terminator(input: Seq<u8>, from: int) -> int
    decreases 4 - from,
{
    if from >= 4 || from >= input.len() || !continues(input[from]) {
        from
    } else {
        terminator(input, from + 1)
    }
}

/// What reading a variable byte integer at the start of `input` gives, as a
/// function of the bytes.
pub open spec fn parse_result(input: Seq<u8>) -> VariableIntegerParse {
    let t = terminator(input, 0);
    if t < 4 && t < input.len() {
        VariableIntegerParse::Value {
            value: var_int_value(input.subrange(0, t + 1)) as u32,
            len: (t + 1) as usize,
        }
    } else if input.len() < 4 {
        VariableIntegerParse::Incomplete
    } else {
        VariableIntegerParse::Invalid
    }
}

proof fn lemma_terminator(input: Seq<u8>, from: int)
    requires
        0 <= from <= 4,
        forall|j: int| 0 <= j < from && j < input.len() ==> continues(#[trigger] input[j]),
    ensures
        from <= terminator(input, from) <= 4,
        terminator(input, from) <= input.len() || terminator(input, from) == from,
        forall|j: int| from <= j < terminator(input, from) ==> continues(#[trigger] input[j]),
        terminator(input, from) < 4 && terminator(input, from) < input.len() ==> !continues(
            input[terminator(input, from)],
        ),
    decreases 4 - from,
{
    if from < 4 && from < input.len() && continues(input[from]) {
        lemma_terminator(input, from + 1);
    }
}

/// Four bytes of which no prefix ends the integer are worth less than `128^k`.
proof fn lemma_var_int_bound(bytes: Seq<u8>)
    requires
        bytes.len() <= 4,
    ensures
        var_int_value(bytes) < pow128(bytes.len()),
    decreases bytes.len(),
{
    lemma_pow128_values();
    if bytes.len() > 0 {
        lemma_var_int_bound(bytes.drop_last());
        let k = (bytes.len() - 1) as nat;
        assert((bytes.last() % 128) as nat * pow128(k) <= 127 * pow128(k)) by (nonlinear_arith)
            requires
                bytes.last() % 128 <= 127,
        ;
        assert(pow128(bytes.len()) == 128 * pow128(k));
    }
}

/// The value read is below 2^28, so it fits a `u32` and the frame length a `usize`.
proof fn lemma_value_bound(input: Seq<u8>, parsed: VariableIntegerParse)
    requires
        parsed matches VariableIntegerParse::Value { value, len } && 1 <= len <= 4 && len <= input.len()
            && value == var_int_value(input.subrange(0, len as int)),
    ensures
        parsed matches VariableIntegerParse::Value { value, .. } && value <= VARIABLE_INTEGER_MAX,
{
    if let VariableIntegerParse::Value { value, len } = parsed {
        lemma_var_int_bound(input.subrange(0, len as int));
        lemma_pow128_values();
        assert(pow128(len as nat) <= pow128(4)) by {
            if len < 4 {
                assert(pow128(len as nat) <= 2097152);
            }
        }
    }
}

/// [`parse_variable_u32`] gives [`parse_result`].
proof fn lemma_parse_result(input: Seq<u8>, parsed: VariableIntegerParse)
    requires
        match parsed {
            VariableIntegerParse::Value { value, len } => {
                &&& 1 <= len <= 4
                &&& len <= input.len()
                &&& !continues(input[len - 1])
                &&& forall|j: int| 0 <= j < len - 1 ==> continues(#[trigger] input[j])
                &&& value == var_int_value(input.subrange(0, len as int))
            },
            VariableIntegerParse::Incomplete => {
                &&& input.len() < 4
                &&& forall|j: int| 0 <= j < input.len() ==> continues(#[trigger] input[j])
            },
            VariableIntegerParse::Invalid => {
                &&& input.len() >= 4
                &&& forall|j: int| 0 <= j < 4 ==> continues(#[trigger] input[j])
            },
        },
    ensures
        parse_result(input) == parsed,
{
    lemma_terminator(input, 0);
    let t = terminator(input, 0);
    match parsed {
        VariableIntegerParse::Value { value, len } => {
            if t < len - 1 {
                assert(continues(input[t]));
            }
            if t > len - 1 {
                assert(continues(input[len - 1]));
            }
            assert(t == len - 1);
        },
        VariableIntegerParse::Incomplete => {
            if t < input.len() {
                assert(continues(input[t]));
            }
        },
        VariableIntegerParse::Invalid => {
            if t < 4 {
                assert(continues(input[t]));
            }
        },
    }
}

/// The value of one to four given bytes.
proof fn lemma_var_int_values(a: u8, b: u8, c: u8, d: u8)
    ensures
        var_int_value(seq![a]) == a % 128,
        var_int_value(seq![a, b]) == a % 128 + 128 * (b % 128),
        var_int_value(seq![a, b, c]) == a % 128 + 128 * (b % 128) + 16384 * (c % 128),
        var_int_value(seq![a, b, c, d]) == a % 128 + 128 * (b % 128) + 16384 * (c % 128) + 2097152 * (d
            % 128),
{
    lemma_pow128_values();
    assert(seq![a].drop_last() =~= Seq::<u8>::empty());
    assert(seq![a, b].drop_last() =~= seq![a]);
    assert(seq![a, b, c].drop_last() =~= seq![a, b]);
    assert(seq![a, b, c, d].drop_last() =~= seq![a, b, c]);
    assert(var_int_value(Seq::<u8>::empty()) == 0);
    assert(var_int_value(seq![a]) == a % 128);
    assert(var_int_value(seq![a, b]) == a % 128 + 128 * (b % 128));
    assert(var_int_value(seq![a, b, c]) == a % 128 + 128 * (b % 128) + 16384 * (c % 128));
}

/// The encoding is minimal: `value` takes exactly as many bytes as it has
/// groups of seven bits (one at least), so it is below 128 to the power of
/// its size and, with more than one byte, not below 128 to the power of one
/// byte less; and the last byte of the encoding of a value other than 0 is
/// not zero.
pub proof fn lemma_encoding_is_minimal(value: u32)
    requires
        value <= VARIABLE_INTEGER_MAX,
    ensures
        1 <= variable_size(value) <= 4,
        value < pow128(variable_size(value) as nat),
        variable_size(value) == 1 || value >= pow128((variable_size(value) - 1) as nat),
        encoded(value).len() == variable_size(value),
        value != 0 ==> encoded(value)[variable_size(value) - 1] != 0,
{
    lemma_pow128_values();
}

/// Round trip: the encoding of a value up to [`VARIABLE_INTEGER_MAX`] is a
/// complete variable byte integer of [`variable_size`] bytes, and its value
/// is the value encoded.
pub proof fn lemma_encoding_round_trip(value: u32)
    requires
        value <= VARIABLE_INTEGER_MAX,
    ensures
        encoded(value).len() == variable_size(value),
        !continues(encoded(value)[variable_size(value) - 1]),
        forall|j: int| 0 <= j < variable_size(value) - 1 ==> continues(#[trigger] encoded(value)[j]),
        var_int_value(encoded(value)) == value,
{
    let e = encoded(value);
    let v = value as int;
    assert(v == v % 128 + 128 * (v / 128));
    assert(v / 128 == (v / 128) % 128 + 128 * (v / 16384));
    assert(v / 16384 == (v / 16384) % 128 + 128 * (v / 2097152));
    if value < 128 {
        lemma_var_int_values(e[0], 0, 0, 0);
        assert(e =~= seq![e[0]]);
    } else if value < 16_384 {
        lemma_var_int_values(e[0], e[1], 0, 0);
        assert(e =~= seq![e[0], e[1]]);
    } else if value < 2_097_152 {
        lemma_var_int_values(e[0], e[1], e[2], 0);
        assert(e =~= seq![e[0], e[1], e[2]]);
    } else {
        lemma_var_int_values(e[0], e[1], e[2], e[3]);
        assert(e =~= seq![e[0], e[1], e[2], e[3]]);
    }
}

/// Reading back what was written: bytes that start with the encoding of a
/// value up to [`VARIABLE_INTEGER_MAX`] read as that value, taking
/// [`variable_size`] bytes, whatever follows.
pub proof fn lemma_parse_encoded(value: u32, rest: Seq<u8>)
    requires
        value <= VARIABLE_INTEGER_MAX,
    ensures
        parse_result(encoded(value) + rest) == (VariableIntegerParse::Value {
            value,
            len: variable_size(value) as usize,
        }),
{
    lemma_encoding_round_trip(value);
    let input = encoded(value) + rest;
    let n = variable_size(value) as int;
    assert(input.subrange(0, n) =~= encoded(value));
    lemma_terminator(input, 0);
    let t = terminator(input, 0);
    if t < n - 1 {
        assert(input[t] == encoded(value)[t]);
    }
    if t > n - 1 {
        assert(input[n - 1] == encoded(value)[n - 1]);
    }
    assert(t == n - 1);
}

/// A whole packet is cut where it ends: a header byte, the encoding of a
/// remaining length up to [`VARIABLE_INTEGER_MAX`], and at least that many
/// more bytes make [`decide_frame`] see a frame of [`frame_length`] bytes.
pub proof fn lemma_whole_packet_is_framed(header: u8, value: u32, rest: Seq<u8>)
    requires
        value <= VARIABLE_INTEGER_MAX,
        rest.len() >= value,
    ensures
        ({
            let buffer = seq![header] + encoded(value) + rest;
            &&& buffer.len() >= 2
            &&& parse_result(buffer.subrange(1, buffer.len() as int)) == (VariableIntegerParse::Value {
                value,
                len: variable_size(value) as usize,
            })
            &&& buffer.len() >= frame_length(value)
        }),
{
    let buffer = seq![header] + encoded(value) + rest;
    lemma_encoding_round_trip(value);
    assert(buffer.subrange(1, buffer.len() as int) =~= encoded(value) + rest);
    lemma_parse_encoded(value, rest);
}

} // verus!
