//! Hiding a payload in a channel buffer and reading a buffer's payload back.

use vstd::prelude::*;
use crate::bits::{lemma_unpack_pack, pack, pack_spec, unpack, unpack_spec};
use crate::channel::{decode, decode_spec, encode, encode_spec, lemma_decode_encode};
use crate::error::StegoError;

verus! {

/// The channel buffer after the bits of `message` have been written into it.
pub open spec fn embed_spec(buffer: Seq<u8>, message: Seq<u8>) -> Seq<u8> {
    encode_spec(buffer, pack_spec(message))
}

/// The bytes that the lowest bits of a channel buffer spell, eight bits to a
/// byte. The buffer's last bytes are left out where they are fewer than eight.
pub open spec fn extract_spec(buffer: Seq<u8>) -> Seq<u8> {
    unpack_spec(decode_spec(buffer))
}

/// Hides `message` in the lowest bits of `buffer`, eight channel bytes per
/// message byte.
///
/// A message of more than an eighth of the buffer's length does not fit:
/// `CapacityExceeded` comes back and the buffer is untouched. A message that
/// fits is written, and reading the buffer back then begins with it.
pub fn embed(buffer: &mut [u8], message: &[u8]) -> (outcome: Result<(), StegoError>)
    ensures
        8 * message.len() > old(buffer).len() ==> outcome matches Err(StegoError::CapacityExceeded),
        8 * message.len() > old(buffer).len() ==> final(buffer)@ == old(buffer)@,
        8 * message.len() <= old(buffer).len() ==> outcome is Ok,
        8 * message.len() <= old(buffer).len() ==> final(buffer)@ == embed_spec(
            old(buffer)@,
            message@,
        ),
        8 * message.len() <= old(buffer).len() ==> extract_spec(final(buffer)@).take(
            message.len() as int,
        ) == message@,
{
    if message.len() > buffer.len() / 8 {
        return Err(StegoError::CapacityExceeded);
    }
    proof {
        lemma_round_trip(message@, buffer@);
    }
    let bits = pack(message);
    encode(buffer, bits.as_slice())
}

/// Reads the payload of `buffer`: the bytes that its lowest bits spell. No
/// length is recorded in a buffer, so the result has one byte for every eight
/// channel bytes, whatever was hidden.
pub fn extract(buffer: &[u8]) -> (message: Vec<u8>)
    ensures
        message@ == extract_spec(buffer@),
{
    let bits = decode(buffer);
    unpack(bits.as_slice())
}

/// What is hidden comes back: in a buffer with at least eight channel bytes
/// per message byte, the first `8 * message.len()` bits read back, taken
/// alone, unpack to the message, and so the payload read from the whole
/// buffer begins with the message.
pub proof fn lemma_round_trip(message: Seq<u8>, buffer: Seq<u8>)
    requires
        8 * message.len() <= buffer.len(),
    ensures
        unpack_spec(decode_spec(embed_spec(buffer, message)).take(8 * message.len() as int)) == message,
        extract_spec(embed_spec(buffer, message)).take(message.len() as int) == message,
{
    let bits = pack_spec(message);
    let read = decode_spec(embed_spec(buffer, message));
    lemma_decode_encode(buffer, bits);
    lemma_unpack_pack(message);
    assert forall|i: int| 0 <= i < message.len() implies extract_spec(
        embed_spec(buffer, message),
    )[i] == message[i] by {
        assert(read.subrange(8 * i, 8 * i + 8) == bits.subrange(8 * i, 8 * i + 8));
    }
}

/// Hiding the empty message changes nothing, and the bits read back are
/// still as many as the buffer has channel bytes.
pub proof fn lemma_empty_payload(buffer: Seq<u8>)
    ensures
        embed_spec(buffer, Seq::<u8>::empty()) == buffer,
        decode_spec(embed_spec(buffer, Seq::<u8>::empty())).len() == buffer.len(),
{
}

} // verus!
