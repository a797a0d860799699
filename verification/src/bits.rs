//! Bytes as bits and bits as bytes, most significant bit first.

use vstd::prelude::*;

verus! {

/// The number a bit stands for.
pub open spec fn bit_value(bit: bool) -> int {
    if bit {
        1
    } else {
        0
    }
}

/// The eight bits of `byte`, from bit 7 down to bit 0.
pub open spec fn byte_bits(byte: u8) -> Seq<bool> {
    seq![
        byte / 128 % 2 == 1,
        byte / 64 % 2 == 1,
        byte / 32 % 2 == 1,
        byte / 16 % 2 == 1,
        byte / 8 % 2 == 1,
        byte / 4 % 2 == 1,
        byte / 2 % 2 == 1,
        byte % 2 == 1,
    ]
}

/// The byte whose bits, from bit 7 down to bit 0, are the first eight
/// entries of `group`.
pub open spec fn byte_of(group: Seq<bool>) -> u8 {
    (128 * bit_value(group[0])
        + 64 * bit_value(group[1])
        + 32 * bit_value(group[2])
        + 16 * bit_value(group[3])
        + 8 * bit_value(group[4])
        + 4 * bit_value(group[5])
        + 2 * bit_value(group[6])
        + bit_value(group[7])) as u8
}

/// The bits of a byte sequence: eight per byte, in the order of the bytes,
/// each byte from its most significant bit to its least.
pub open spec fn pack_spec(bytes: Seq<u8>) -> Seq<bool> {
    Seq::new(8 * bytes.len(), |k: int| byte_bits(bytes[k / 8])[k % 8])
}

/// The bytes of a bit sequence: one per complete group of eight bits. Bits
/// after the last complete group are left out.
pub open spec fn unpack_spec(bits: Seq<bool>) -> Seq<u8> {
    Seq::new(bits.len() / 8, |i: int| byte_of(bits.subrange(8 * i, 8 * i + 8)))
}

/// A right shift by `7 - k` followed by a mask reads entry `k` of a byte's bits.
proof fn lemma_shift_reads_bit(byte: u8, k: u8)
    requires
        k < 8,
    ensures
        ((byte >> (7 - k) as u8) & 1 == 1) == byte_bits(byte)[k as int],
{
    assert(((byte >> 7) & 1 == 1) == (byte / 128 % 2 == 1)) by (bit_vector);
    assert(((byte >> 6) & 1 == 1) == (byte / 64 % 2 == 1)) by (bit_vector);
    assert(((byte >> 5) & 1 == 1) == (byte / 32 % 2 == 1)) by (bit_vector);
    assert(((byte >> 4) & 1 == 1) == (byte / 16 % 2 == 1)) by (bit_vector);
    assert(((byte >> 3) & 1 == 1) == (byte / 8 % 2 == 1)) by (bit_vector);
    assert(((byte >> 2) & 1 == 1) == (byte / 4 % 2 == 1)) by (bit_vector);
    assert(((byte >> 1) & 1 == 1) == (byte / 2 % 2 == 1)) by (bit_vector);
    assert(((byte >> 0) & 1 == 1) == (byte % 2 == 1)) by (bit_vector);
}

/// Turns bytes into bits, eight per byte, most significant bit first.
///
/// The bit sequence is eight times as long as the byte sequence, so its
/// length has to fit in `usize`.
pub fn pack(bytes: &[u8]) -> (bits: Vec<bool>)
    requires
        8 * bytes.len() <= usize::MAX,
    ensures
        bits@ == pack_spec(bytes@),
{
    let mut bits: Vec<bool> = Vec::new();
    let mut i: usize = 0;
    while i < bytes.len()
        invariant
            i <= bytes.len(),
            bits@ == pack_spec(bytes@.take(i as int)),
        decreases bytes.len() - i,
    {
        let byte: u8 = bytes[i];
        let mut k: u8 = 0;
        while k < 8
            invariant
                k <= 8,
                i < bytes.len(),
                byte == bytes[i as int],
                bits@ == pack_spec(bytes@.take(i as int)) + byte_bits(byte).take(k as int),
            decreases 8 - k,
        {
            proof {
                lemma_shift_reads_bit(byte, k);
            }
            bits.push((byte >> (7 - k)) & 1 == 1);
            k += 1;
        }
        i += 1;
    }
    assert(bytes@.take(i as int) == bytes@);
    bits
}

/// The number that the first `k` bits of `byte` spell, for `k` up to eight.
spec fn leading_bits(byte: u8, k: int) -> u8 {
    if k <= 0 {
        0
    } else if k == 1 {
        byte / 128
    } else if k == 2 {
        byte / 64
    } else if k == 3 {
        byte / 32
    } else if k == 4 {
        byte / 16
    } else if k == 5 {
        byte / 8
    } else if k == 6 {
        byte / 4
    } else if k == 7 {
        byte / 2
    } else {
        byte
    }
}

/// Shifting the accumulator left and adding the next bit extends the number
/// spelt so far by one bit of the group.
proof fn lemma_accumulate(group: Seq<bool>, k: int, acc: u8, bit: u8)
    requires
        group.len() == 8,
        0 <= k < 8,
        acc == leading_bits(byte_of(group), k),
        bit == bit_value(group[k]),
    ensures
        (acc << 1) | bit == leading_bits(byte_of(group), k + 1),
{
    assert((acc << 1) | bit == 2 * acc + bit) by (bit_vector)
        requires
            acc < 128,
            bit <= 1,
    ;
}

/// Turns bits into bytes, one per complete group of eight bits, the first bit
/// of a group becoming the most significant. Bits after the last complete
/// group are dropped.
pub fn unpack(bits: &[bool]) -> (bytes: Vec<u8>)
    ensures
        bytes@ == unpack_spec(bits@),
{
    let count: usize = bits.len() / 8;
    let mut bytes: Vec<u8> = Vec::new();
    let mut i: usize = 0;
    while i < count
        invariant
            i <= count,
            count == bits.len() / 8,
            bytes@ == unpack_spec(bits@).take(i as int),
        decreases count - i,
    {
        let ghost group = bits@.subrange(8 * i, 8 * i + 8);
        let mut acc: u8 = 0;
        let mut k: usize = 0;
        while k < 8
            invariant
                k <= 8,
                i < count,
                count == bits.len() / 8,
                group == bits@.subrange(8 * i, 8 * i + 8),
                acc == leading_bits(byte_of(group), k as int),
            decreases 8 - k,
        {
            let bit: u8 = if bits[8 * i + k] {
                1
            } else {
                0
            };
            proof {
                lemma_accumulate(group, k as int, acc, bit);
            }
            acc = (acc << 1) | bit;
            k += 1;
        }
        bytes.push(acc);
        i += 1;
    }
    bytes
}

/// A byte is the byte of its own eight bits.
pub proof fn lemma_byte_of_bits(byte: u8)
    ensures
        byte_bits(byte).len() == 8,
        byte_of(byte_bits(byte)) == byte,
{
    assert(byte == 128 * (byte / 128 % 2)
        + 64 * (byte / 64 % 2)
        + 32 * (byte / 32 % 2)
        + 16 * (byte / 16 % 2)
        + 8 * (byte / 8 % 2)
        + 4 * (byte / 4 % 2)
        + 2 * (byte / 2 % 2)
        + byte % 2) by (bit_vector);
}

/// Eight bits are the bits of the byte that they spell.
pub proof fn lemma_bits_of_byte(group: Seq<bool>)
    requires
        group.len() == 8,
    ensures
        byte_bits(byte_of(group)) == group,
{
}

/// Packing and then unpacking gives every byte sequence back.
pub proof fn lemma_unpack_pack(bytes: Seq<u8>)
    ensures
        unpack_spec(pack_spec(bytes)) == bytes,
{
    let bits = pack_spec(bytes);
    assert forall|i: int| 0 <= i < bytes.len() implies unpack_spec(bits)[i] == bytes[i] by {
        lemma_byte_of_bits(bytes[i]);
        assert(bits.subrange(8 * i, 8 * i + 8) == byte_bits(bytes[i]));
    }
}

/// Unpacking and then packing gives a bit sequence back up to its last
/// complete group of eight: what is lost is a trailing fragment of fewer
/// than eight bits, and nothing where the length is a multiple of eight.
pub proof fn lemma_pack_unpack(bits: Seq<bool>)
    ensures
        pack_spec(unpack_spec(bits)) == bits.take(8 * (bits.len() as int / 8)),
        bits.len() - 8 * (bits.len() / 8) < 8,
        bits.len() % 8 == 0 ==> pack_spec(unpack_spec(bits)) == bits,
{
    let bytes = unpack_spec(bits);
    let whole = bits.take(8 * (bits.len() as int / 8));
    assert forall|k: int| 0 <= k < whole.len() implies pack_spec(bytes)[k] == whole[k] by {
        lemma_bits_of_byte(bits.subrange(8 * (k / 8), 8 * (k / 8) + 8));
    }
}

} // verus!
