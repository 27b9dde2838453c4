//! Reading one packet from the client: how many bytes of fixed header to
//! read, and how long the rest is.

use vstd::prelude::*;

use crate::codecs::{continues, lemma_pow128_values, pow128, var_int_value};

verus! {

/// One step of a scripted exchange with the client: send bytes, wait for
/// exactly these bytes, or wait for a packet and check its bytes with `C`.
pub enum ClientCommand<C> {
    Send(Vec<u8>),
    WaitFor(Vec<u8>),
    WaitAndCheck(C),
}

/// Having read `header` (the first byte and at least two more), whether
/// another byte of the remaining length must be read: the byte before the
/// last one read says that one follows, and at most five bytes of header
/// are read in all.
pub fn needs_another_length_byte(header: &[u8]) -> (res: bool)
    requires
        3 <= header@.len() <= 5,
    ensures
        res == continues(header@[header@.len() - 2]),
{
    header[header.len() - 2] >= 128
}

/// The remaining length read from `header`: every byte after the first
/// counts its low seven bits `128^k` times, `k` counting from 0.
pub fn remaining_length(header: &[u8]) -> (res: u32)
    requires
        1 <= header@.len() <= 6,
        var_int_value(header@.subrange(1, header@.len() as int)) <= u32::MAX,
    ensures
        res == var_int_value(header@.subrange(1, header@.len() as int)),
{
    let mut value: u64 = 0;
    let mut multiplier: u64 = 1;
    let mut i: usize = 1;
    while i < header.len()
        invariant
            1 <= i <= header@.len() <= 6,
            i <= 5 ==> multiplier == pow128((i - 1) as nat) && value < multiplier,
            value == var_int_value(header@.subrange(1, i as int)),
            value < 34359738368,
        decreases header@.len() - i,
    {
        let b = header[i];
        proof {
            let s = header@.subrange(1, i + 1);
            assert(s.drop_last() =~= header@.subrange(1, i as int));
            assert(s.last() == b);
            lemma_pow128_values();
            assert(multiplier <= 268435456) by {
                if i < 5 {
                    assert(pow128((i - 1) as nat) <= 2097152);
                }
            }
            assert((b % 128) * multiplier <= 127 * multiplier) by (nonlinear_arith)
                requires
                    b % 128 <= 127,
            ;
            assert(pow128(i as nat) == 128 * multiplier);
        }
        value = value + (b % 128) as u64 * multiplier;
        if i < 5 {
            multiplier = multiplier * 128;
        }
        i = i + 1;
    }
    value as u32
}

} // verus!
