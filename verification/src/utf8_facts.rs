//! Facts about UTF-8 that the codec rests on: how ASCII text and combining
//! marks are laid out in bytes.

use crate::mapping::{high_byte, low_byte};
use vstd::prelude::*;
use vstd::utf8::{
    char_is_scalar, char_u32_cast, encode_scalar, encode_utf8, encode_utf8_decode_utf8, has_width_1_encoding,
    has_width_2_encoding, has_width_3_encoding, last_continuation_byte, leading_byte_width_1,
    leading_byte_width_2, leading_byte_width_3, leading_byte_width_4,
};

verus! {

/// The characters that a sequence of ASCII bytes spells.
pub open spec fn ascii_chars(bytes: Seq<u8>) -> Seq<char> {
    Seq::new(bytes.len(), |i: int| bytes[i] as char)
}

/// Whether every byte is below 128.
pub open spec fn is_ascii_bytes(bytes: Seq<u8>) -> bool {
    forall|i: int| 0 <= i < bytes.len() ==> #[trigger] bytes[i] < 128
}

/// The combining mark that carries the slot `v`: the character `v` places
/// after U+0300.
pub open spec fn combining_mark(v: u8) -> char {
    (0x300 + v) as char
}

/// The UTF-8 form of two texts joined is the two UTF-8 forms joined.
pub proof fn lemma_encode_utf8_concat(first: Seq<char>, second: Seq<char>)
    ensures
        encode_utf8(first + second) == encode_utf8(first) + encode_utf8(second),
    decreases first.len(),
{
    if first.len() == 0 {
        assert(first + second =~= second);
        assert(encode_utf8(first) + encode_utf8(second) =~= encode_utf8(second));
    } else {
        lemma_encode_utf8_concat(first.drop_first(), second);
        assert((first + second).drop_first() =~= first.drop_first() + second);
        assert(encode_utf8(first + second) =~= encode_utf8(first) + encode_utf8(second));
    }
}

/// Two texts with the same UTF-8 form are the same text.
pub proof fn lemma_encode_utf8_injective(first: Seq<char>, second: Seq<char>)
    requires
        encode_utf8(first) == encode_utf8(second),
    ensures
        first == second,
{
    encode_utf8_decode_utf8(first);
    encode_utf8_decode_utf8(second);
}

/// The UTF-8 form of a single character.
pub proof fn lemma_encode_utf8_single(c: char)
    ensures
        encode_utf8(seq![c]) == encode_scalar(c as u32),
{
    reveal_with_fuel(encode_utf8, 2);
    assert(seq![c].drop_first() =~= Seq::<char>::empty());
    assert(encode_utf8(seq![c]) =~= encode_scalar(c as u32));
}

/// An ASCII character takes one byte in UTF-8: itself.
pub proof fn lemma_ascii_scalar(byte: u8)
    requires
        byte < 128,
    ensures
        encode_scalar((byte as char) as u32) == seq![byte],
        (byte as char) as u8 == byte,
{
    let c = (byte as char) as u32;
    assert(c == byte);
    assert(leading_byte_width_1(c) == byte) by (bit_vector)
        requires
            c == byte,
            byte < 128,
    ;
}

/// ASCII bytes are the UTF-8 form of the characters they spell.
pub proof fn lemma_ascii_bytes(bytes: Seq<u8>)
    requires
        is_ascii_bytes(bytes),
    ensures
        encode_utf8(ascii_chars(bytes)) == bytes,
    decreases bytes.len(),
{
    let chars = ascii_chars(bytes);
    if bytes.len() == 0 {
        assert(encode_utf8(chars) =~= bytes);
    } else {
        let head = bytes.subrange(0, bytes.len() - 1);
        let last = bytes.last();
        lemma_ascii_bytes(head);
        lemma_ascii_scalar(last);
        lemma_encode_utf8_single(last as char);
        lemma_encode_utf8_concat(ascii_chars(head), seq![last as char]);
        assert(chars =~= ascii_chars(head) + seq![last as char]);
        assert(head + seq![last] =~= bytes);
    }
}

/// A combining mark takes two bytes in UTF-8: the pair that carries its slot.
pub proof fn lemma_mark_scalar(v: u8)
    requires
        v < 112,
    ensures
        encode_scalar(combining_mark(v) as u32) == seq![high_byte(v), low_byte(v)],
        combining_mark(v) as u32 == 0x300 + v,
{
    let c = combining_mark(v) as u32;
    assert(c == 0x300 + v);
    assert(!has_width_1_encoding(c));
    assert(has_width_2_encoding(c));
    assert(leading_byte_width_2(c) == high_byte(v) && last_continuation_byte(c) == low_byte(v))
        by (bit_vector)
        requires
            c == 0x300 + v,
            v < 112,
    ;
}

/// The first byte of a text's UTF-8 form is below 128 exactly when the first
/// character is ASCII, and then it is that character.
pub proof fn lemma_first_byte(chars: Seq<char>)
    requires
        chars.len() > 0,
    ensures
        encode_utf8(chars).len() > 0,
        encode_utf8(chars)[0] < 128 <==> (chars[0] as u32) < 128,
        encode_utf8(chars)[0] < 128 ==> chars[0] == encode_utf8(chars)[0] as char
            && encode_utf8(chars).drop_first() == encode_utf8(chars.drop_first()),
{
    let c = chars[0] as u32;
    char_is_scalar(chars[0]);
    let first = encode_scalar(c);
    assert(encode_utf8(chars) == first + encode_utf8(chars.drop_first()));
    if has_width_1_encoding(c) {
        assert(leading_byte_width_1(c) == c) by (bit_vector)
            requires
                c <= 0x7F,
        ;
        char_u32_cast(chars[0], c);
        assert(encode_utf8(chars)[0] == c);
        assert(encode_utf8(chars)[0] as char == c as char);
        assert(encode_utf8(chars).drop_first() =~= encode_utf8(chars.drop_first()));
    } else if has_width_2_encoding(c) {
        assert(leading_byte_width_2(c) >= 0xC0) by (bit_vector);
    } else if has_width_3_encoding(c) {
        assert(leading_byte_width_3(c) >= 0xE0) by (bit_vector);
    } else {
        assert(leading_byte_width_4(c) >= 0xF0) by (bit_vector);
    }
}

/// Where the first `i` bytes of a text's UTF-8 form are all below 128, the
/// first `i` characters are those bytes, and the rest of the bytes is the
/// UTF-8 form of the rest of the characters.
pub proof fn lemma_ascii_prefix(chars: Seq<char>, i: int)
    requires
        0 <= i <= encode_utf8(chars).len(),
        forall|k: int| 0 <= k < i ==> #[trigger] encode_utf8(chars)[k] < 128,
    ensures
        i <= chars.len(),
        forall|k: int| 0 <= k < i ==> #[trigger] chars[k] == encode_utf8(chars)[k] as char,
        encode_utf8(chars).subrange(i, encode_utf8(chars).len() as int) == encode_utf8(
            chars.subrange(i, chars.len() as int),
        ),
    decreases i,
{
    let bytes = encode_utf8(chars);
    if i == 0 {
        assert(bytes.subrange(0, bytes.len() as int) =~= bytes);
        assert(chars.subrange(0, chars.len() as int) =~= chars);
    } else {
        lemma_ascii_prefix(chars, i - 1);
        let rest = chars.subrange(i - 1, chars.len() as int);
        let rest_bytes = bytes.subrange(i - 1, bytes.len() as int);
        assert(rest_bytes.len() > 0);
        assert(rest_bytes[0] == bytes[i - 1]);
        if rest.len() == 0 {
            assert(encode_utf8(rest).len() == 0);
        }
        lemma_first_byte(rest);
        assert(rest[0] == chars[i - 1]);
        assert(rest.drop_first() =~= chars.subrange(i, chars.len() as int));
        assert(rest_bytes.drop_first() =~= bytes.subrange(i, bytes.len() as int));
    }
}

/// Where the bytes before offset `i` of a text's UTF-8 form are all below
/// 128, the character that begins at byte `i` is the character at place `i`,
/// and it is ASCII exactly when that byte is below 128.
pub proof fn lemma_char_at_byte(chars: Seq<char>, i: int)
    requires
        0 <= i < encode_utf8(chars).len(),
        forall|k: int| 0 <= k < i ==> #[trigger] encode_utf8(chars)[k] < 128,
    ensures
        i < chars.len(),
        encode_utf8(chars)[i] < 128 <==> (chars[i] as u32) < 128,
        encode_utf8(chars)[i] < 128 ==> chars[i] == encode_utf8(chars)[i] as char,
{
    let bytes = encode_utf8(chars);
    lemma_ascii_prefix(chars, i);
    let rest = chars.subrange(i, chars.len() as int);
    let rest_bytes = bytes.subrange(i, bytes.len() as int);
    assert(rest_bytes.len() > 0);
    assert(rest_bytes[0] == bytes[i]);
    if rest.len() == 0 {
        assert(encode_utf8(rest).len() == 0);
    }
    lemma_first_byte(rest);
    assert(rest[0] == chars[i]);
}

} // verus!
