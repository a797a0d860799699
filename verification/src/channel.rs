//! Writing bits into, and reading bits from, the lowest bit of channel bytes.

use vstd::prelude::*;
use crate::bits::bit_value;
use crate::error::StegoError;

verus! {

/// The lowest bit of a channel byte.
pub open spec fn lsb(byte: u8) -> bool {
    byte % 2 == 1
}

/// The channel byte `byte` with its lowest bit replaced by `bit` and its
/// seven other bits kept.
pub open spec fn with_lsb(byte: u8, bit: bool) -> u8 {
    (2 * (byte / 2) + bit_value(bit)) as u8
}

/// The channel buffer after `bits` have been written into it: entry `i`
/// carries bit `i` as long as there are bits, and is unchanged after that.
pub open spec fn encode_spec(buffer: Seq<u8>, bits: Seq<bool>) -> Seq<u8> {
    Seq::new(
        buffer.len(),
        |i: int|
            if i < bits.len() {
                with_lsb(buffer[i], bits[i])
            } else {
                buffer[i]
            },
    )
}

/// The lowest bits of a channel buffer, one per channel byte.
pub open spec fn decode_spec(buffer: Seq<u8>) -> Seq<bool> {
    Seq::new(buffer.len(), |i: int| lsb(buffer[i]))
}

/// Clearing the lowest bit with a mask and setting it with an `or` replaces
/// it and leaves the other bits alone.
proof fn lemma_mask_writes_lsb(byte: u8, bit: u8)
    requires
        bit <= 1,
    ensures
        (byte & 0xFE) | bit == 2 * (byte / 2) + bit,
{
    assert((byte & 0xFE) | bit == 2 * (byte / 2) + bit) by (bit_vector)
        requires
            bit <= 1,
    ;
}

/// Writes `bits` into the lowest bits of the first channel bytes of `buffer`,
/// one bit per byte.
///
/// Where there are more bits than channel bytes nothing is written and
/// `CapacityExceeded` comes back. Otherwise byte `i` takes bit `i` as its
/// lowest bit for every bit; its other seven bits, which are its quotient by
/// two, stay, and so do all bytes after the last bit.
pub fn encode(buffer: &mut [u8], bits: &[bool]) -> (outcome: Result<(), StegoError>)
    ensures
        bits.len() > old(buffer).len() ==> outcome matches Err(StegoError::CapacityExceeded),
        bits.len() > old(buffer).len() ==> final(buffer)@ == old(buffer)@,
        bits.len() <= old(buffer).len() ==> outcome is Ok,
        bits.len() <= old(buffer).len() ==> final(buffer)@ == encode_spec(old(buffer)@, bits@),
        final(buffer)@.len() == old(buffer)@.len(),
        forall|i: int|
            #![trigger final(buffer)@[i]]
            0 <= i < old(buffer)@.len() ==> final(buffer)@[i] / 2 == old(buffer)@[i] / 2,
        forall|i: int|
            #![trigger final(buffer)@[i]]
            bits.len() <= i < old(buffer)@.len() ==> final(buffer)@[i] == old(buffer)@[i],
{
    if bits.len() > buffer.len() {
        return Err(StegoError::CapacityExceeded);
    }
    let mut i: usize = 0;
    while i < bits.len()
        invariant
            i <= bits.len() <= buffer.len(),
            buffer@.len() == old(buffer)@.len(),
            buffer@ == encode_spec(old(buffer)@, bits@.take(i as int)),
        decreases bits.len() - i,
    {
        let bit: u8 = if bits[i] {
            1
        } else {
            0
        };
        proof {
            lemma_mask_writes_lsb(buffer@[i as int], bit);
        }
        buffer[i] = (buffer[i] & 0xFE) | bit;
        i += 1;
    }
    assert(bits@.take(i as int) == bits@);
    Ok(())
}

/// Reads the lowest bit of every channel byte of `buffer`, in order.
pub fn decode(buffer: &[u8]) -> (bits: Vec<bool>)
    ensures
        bits@ == decode_spec(buffer@),
{
    let mut bits: Vec<bool> = Vec::new();
    let mut i: usize = 0;
    while i < buffer.len()
        invariant
            i <= buffer.len(),
            bits@ == decode_spec(buffer@.take(i as int)),
        decreases buffer.len() - i,
    {
        let byte: u8 = buffer[i];
        assert(byte & 1 == byte % 2) by (bit_vector);
        bits.push(byte & 1 == 1);
        i += 1;
    }
    assert(buffer@.take(i as int) == buffer@);
    bits
}

/// Writing bits keeps the length of a buffer, changes no channel byte in
/// anything but its lowest bit, and changes no byte at all from the end of
/// the bits on.
pub proof fn lemma_bit_isolation(buffer: Seq<u8>, bits: Seq<bool>)
    ensures
        encode_spec(buffer, bits).len() == buffer.len(),
        forall|i: int|
            #![trigger encode_spec(buffer, bits)[i]]
            0 <= i < buffer.len() ==> encode_spec(buffer, bits)[i] / 2 == buffer[i] / 2,
        forall|i: int|
            #![trigger encode_spec(buffer, bits)[i]]
            bits.len() <= i < buffer.len() ==> encode_spec(buffer, bits)[i] == buffer[i],
{
}

/// The bits read back from a buffer begin with the bits that were written
/// into it, and go on with the lowest bits that the buffer had before.
pub proof fn lemma_decode_encode(buffer: Seq<u8>, bits: Seq<bool>)
    requires
        bits.len() <= buffer.len(),
    ensures
        decode_spec(encode_spec(buffer, bits)).take(bits.len() as int) == bits,
        decode_spec(encode_spec(buffer, bits)).skip(bits.len() as int) == decode_spec(buffer).skip(
            bits.len() as int,
        ),
{
}

} // verus!
