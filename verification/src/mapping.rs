//! The byte mapping: one text byte to one pair of encoded bytes and back.

use vstd::prelude::*;

verus! {

/// The byte that every encoded text begins with, the letter `E`.
pub const ANCHOR: u8 = 69;

/// The bytes that can be encoded: printable ASCII and the newline.
pub open spec fn is_encodable(byte: u8) -> bool {
    32 <= byte <= 126 || byte == 10
}

/// The slot, below 112, that an encodable byte is mapped to. The newline
/// takes the slot that the unused byte 127 would have had.
pub open spec fn mapped_value(byte: u8) -> int {
    (byte - 11) % 133 - 21
}

/// The first byte of the pair that carries the slot `v`.
pub open spec fn high_byte(v: u8) -> u8 {
    0b1100_1100u8 | ((v >> 6) & 1)
}

/// The second byte of the pair that carries the slot `v`.
pub open spec fn low_byte(v: u8) -> u8 {
    0b1000_0000u8 | (v & 63)
}

/// The text byte that a pair of encoded bytes stands for.
pub open spec fn unmapped_byte(odd: u8, even: u8) -> u8 {
    ((((odd << 6) & 64 | (even & 63)) + 22) % 133 + 10) as u8
}

/// The slot that a lead byte `0xCC` or `0xCD` and a continuation byte carry
/// between them.
pub open spec fn pair_slot(odd: u8, even: u8) -> int {
    (odd - 0xCC) * 64 + (even - 0x80)
}

/// Whether `odd` and `even` are the pair of some encodable byte: a lead byte
/// `0xCC` or `0xCD`, a continuation byte, and between them the slot of a
/// printable character (0 to 94) or of the newline (111).
pub open spec fn is_encoded_pair(odd: u8, even: u8) -> bool {
    &&& 0xCC <= odd <= 0xCD
    &&& 0x80 <= even <= 0xBF
    &&& (pair_slot(odd, even) <= 94 || pair_slot(odd, even) == 111)
}

/// Tells whether `byte` is printable ASCII or a newline.
pub fn encodable(byte: u8) -> (r: bool)
    ensures
        r == is_encodable(byte),
{
    (32 <= byte && byte < 127) || byte == 10
}

/// Maps an encodable byte to its pair of encoded bytes.
pub fn encode_byte(byte: u8) -> (pair: (u8, u8))
    requires
        is_encodable(byte),
    ensures
        pair.0 == high_byte(mapped_value(byte) as u8),
        pair.1 == low_byte(mapped_value(byte) as u8),
{
    let v: u8 = if byte == 10 {
        111
    } else {
        byte - 32
    };
    assert(v == mapped_value(byte));
    (0b1100_1100u8 | ((v >> 6) & 1), 0b1000_0000u8 | (v & 63))
}

/// Maps a pair of encoded bytes back to the text byte.
pub fn decode_byte_pair(odd: u8, even: u8) -> (byte: u8)
    ensures
        byte == unmapped_byte(odd, even),
{
    let bits: u8 = (odd << 6) & 64 | (even & 63);
    assert(bits <= 127) by (bit_vector)
        requires
            bits == (odd << 6) & 64 | (even & 63),
    ;
    (bits + 22) % 133 + 10
}

/// The two bytes of a pair, split by arithmetic instead of by bits.
pub proof fn lemma_pair_bytes(v: u8)
    by (bit_vector)
    requires
        v < 112,
    ensures
        high_byte(v) == 0xCC + v / 64,
        low_byte(v) == 0x80 + v % 64,
{
}

/// Unmapping reads the slot back out of the low bit of the first byte and
/// the low six bits of the second.
pub proof fn lemma_unmapped_slot(odd: u8, even: u8)
    by (bit_vector)
    requires
        0xCC <= odd <= 0xCD,
        0x80 <= even <= 0xBF,
    ensures
        unmapped_byte(odd, even) == ((odd - 0xCC) * 64 + (even - 0x80) + 22) % 133 + 10,
        0 <= (odd - 0xCC) * 64 + (even - 0x80) < 128,
{
}

/// The slot of an encodable byte lies below 112, and the pair that carries
/// it is an encoded pair with that slot.
pub proof fn lemma_mapped_pair(byte: u8)
    requires
        is_encodable(byte),
    ensures
        0 <= mapped_value(byte) < 112,
        byte != 10 ==> mapped_value(byte) == byte - 32,
        byte == 10 ==> mapped_value(byte) == 111,
        is_encoded_pair(high_byte(mapped_value(byte) as u8), low_byte(mapped_value(byte) as u8)),
        pair_slot(high_byte(mapped_value(byte) as u8), low_byte(mapped_value(byte) as u8))
            == mapped_value(byte),
{
    lemma_pair_bytes(mapped_value(byte) as u8);
}

/// Unmapping undoes mapping: the pair of an encodable byte stands for that
/// byte.
pub proof fn lemma_unmap_map(byte: u8)
    requires
        is_encodable(byte),
    ensures
        unmapped_byte(high_byte(mapped_value(byte) as u8), low_byte(mapped_value(byte) as u8))
            == byte,
{
    let v = mapped_value(byte) as u8;
    lemma_mapped_pair(byte);
    lemma_pair_bytes(v);
    lemma_unmapped_slot(high_byte(v), low_byte(v));
}

/// Mapping undoes unmapping: an encoded pair stands for an encodable byte,
/// and is the pair of that byte.
pub proof fn lemma_map_unmap(odd: u8, even: u8)
    requires
        is_encoded_pair(odd, even),
    ensures
        is_encodable(unmapped_byte(odd, even)),
        high_byte(mapped_value(unmapped_byte(odd, even)) as u8) == odd,
        low_byte(mapped_value(unmapped_byte(odd, even)) as u8) == even,
{
    lemma_unmapped_slot(odd, even);
    let byte = unmapped_byte(odd, even);
    lemma_mapped_pair(byte);
    lemma_pair_bytes(mapped_value(byte) as u8);
}

} // verus!
