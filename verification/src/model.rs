//! What encoding and decoding mean, as functions on byte sequences, and the
//! facts that tie the two together.

use crate::mapping::{
    high_byte, is_encodable, is_encoded_pair, lemma_map_unmap, lemma_mapped_pair, lemma_unmap_map,
    low_byte, mapped_value, unmapped_byte, ANCHOR,
};
use crate::utf8_facts::{
    combining_mark, lemma_ascii_scalar, lemma_encode_utf8_concat, lemma_encode_utf8_single,
    lemma_mark_scalar,
};
use vstd::prelude::*;
use vstd::utf8::{
    encode_utf8, is_char_boundary, is_char_boundary_iff_is_leading_byte,
    is_char_boundary_start_end_of_seq, valid_utf8,
};

verus! {

/// Text that can be encoded: every byte is printable ASCII or a newline.
pub open spec fn is_encodable_text(text: Seq<u8>) -> bool {
    forall|i: int| 0 <= i < text.len() ==> is_encodable(#[trigger] text[i])
}

/// The encoded form of `text`: the anchor, then the pair of each byte in
/// turn.
pub open spec fn encoded_bytes(text: Seq<u8>) -> Seq<u8> {
    Seq::new(
        2 * text.len() + 1,
        |i: int|
            if i == 0 {
                ANCHOR
            } else if i % 2 == 1 {
                high_byte(mapped_value(text[(i - 1) / 2]) as u8)
            } else {
                low_byte(mapped_value(text[(i - 1) / 2]) as u8)
            },
    )
}

/// How many bytes a buffer of `encoded_len` bytes decodes to: the first byte
/// is skipped, and a byte left over after the last whole pair is ignored.
pub open spec fn decoded_length(encoded_len: nat) -> nat {
    if encoded_len == 0 {
        0
    } else {
        ((encoded_len - 1) / 2) as nat
    }
}

/// What any buffer decodes to: the first byte is skipped and each following
/// pair is unmapped.
pub open spec fn decoded_bytes(encoded: Seq<u8>) -> Seq<u8> {
    Seq::new(
        decoded_length(encoded.len()),
        |i: int| unmapped_byte(encoded[2 * i + 1], encoded[2 * i + 2]),
    )
}

/// A well-formed encoded buffer: the anchor followed by whole encoded pairs.
pub open spec fn is_zalgo_bytes(encoded: Seq<u8>) -> bool {
    &&& encoded.len() % 2 == 1
    &&& encoded[0] == ANCHOR
    &&& forall|i: int|
        0 <= i < decoded_length(encoded.len()) ==> is_encoded_pair(
            #[trigger] encoded[2 * i + 1],
            encoded[2 * i + 2],
        )
}

/// Encoding text that can be encoded gives a well-formed buffer of twice the
/// length plus one.
pub proof fn lemma_encoded_is_zalgo(text: Seq<u8>)
    requires
        is_encodable_text(text),
    ensures
        is_zalgo_bytes(encoded_bytes(text)),
        encoded_bytes(text).len() == 2 * text.len() + 1,
{
    let encoded = encoded_bytes(text);
    assert forall|i: int| 0 <= i < decoded_length(encoded.len()) implies is_encoded_pair(
        #[trigger] encoded[2 * i + 1],
        encoded[2 * i + 2],
    ) by {
        assert(is_encodable(text[i]));
        lemma_mapped_pair(text[i]);
    }
}

/// Decoding undoes encoding.
pub proof fn lemma_decode_encode(text: Seq<u8>)
    requires
        is_encodable_text(text),
    ensures
        decoded_bytes(encoded_bytes(text)) == text,
{
    let encoded = encoded_bytes(text);
    let decoded = decoded_bytes(encoded);
    assert(decoded.len() == text.len());
    assert forall|i: int| 0 <= i < text.len() implies decoded[i] == text[i] by {
        assert(is_encodable(text[i]));
        lemma_unmap_map(text[i]);
    }
    assert(decoded =~= text);
}

/// A well-formed buffer decodes to text that can be encoded, and encoding
/// that text gives the buffer back.
pub proof fn lemma_encode_decode(encoded: Seq<u8>)
    requires
        is_zalgo_bytes(encoded),
    ensures
        is_encodable_text(decoded_bytes(encoded)),
        encoded_bytes(decoded_bytes(encoded)) == encoded,
{
    let text = decoded_bytes(encoded);
    assert forall|i: int| 0 <= i < text.len() implies is_encodable(#[trigger] text[i]) by {
        assert(is_encoded_pair(encoded[2 * i + 1], encoded[2 * i + 2]));
        lemma_map_unmap(encoded[2 * i + 1], encoded[2 * i + 2]);
    }
    let again = encoded_bytes(text);
    assert(again.len() == encoded.len());
    assert forall|j: int| 0 <= j < encoded.len() implies again[j] == encoded[j] by {
        if j > 0 {
            let i = (j - 1) / 2;
            assert(is_encoded_pair(encoded[2 * i + 1], encoded[2 * i + 2]));
            lemma_map_unmap(encoded[2 * i + 1], encoded[2 * i + 2]);
        }
    }
    assert(again =~= encoded);
}

/// The encoded form of two texts joined is the encoded form of the first
/// followed by the pairs of the second, without a second anchor.
pub proof fn lemma_encoded_concat(first: Seq<u8>, second: Seq<u8>)
    ensures
        encoded_bytes(first + second) == encoded_bytes(first) + encoded_bytes(second).drop_first(),
{
    let joined = encoded_bytes(first + second);
    let parts = encoded_bytes(first) + encoded_bytes(second).drop_first();
    assert(joined.len() == parts.len());
    assert forall|j: int| 0 <= j < joined.len() implies joined[j] == parts[j] by {
        if j >= 2 * first.len() + 1 {
            let k = j - 2 * first.len();
            assert(parts[j] == encoded_bytes(second)[k]);
            assert((k - 1) / 2 + first.len() == (j - 1) / 2);
        }
    }
    assert(joined =~= parts);
}

/// Decoding two well-formed buffers joined without the second anchor gives
/// the two decoded texts joined.
pub proof fn lemma_decoded_concat(first: Seq<u8>, second: Seq<u8>)
    requires
        first.len() % 2 == 1,
        second.len() % 2 == 1,
    ensures
        decoded_bytes(first + second.drop_first()) == decoded_bytes(first) + decoded_bytes(second),
{
    let joined = decoded_bytes(first + second.drop_first());
    let parts = decoded_bytes(first) + decoded_bytes(second);
    assert(joined.len() == parts.len());
    assert forall|i: int| 0 <= i < joined.len() implies joined[i] == parts[i] by {
        let both = first + second.drop_first();
        if i >= decoded_bytes(first).len() {
            let k = i - decoded_bytes(first).len();
            assert(both[2 * i + 1] == second[2 * k + 1]);
            assert(both[2 * i + 2] == second[2 * k + 2]);
        }
    }
    assert(joined =~= parts);
}

/// Two well-formed buffers joined without the second anchor are a
/// well-formed buffer, which decodes to the two decoded texts joined.
pub proof fn lemma_zalgo_concat(first: Seq<u8>, second: Seq<u8>)
    requires
        is_zalgo_bytes(first),
        is_zalgo_bytes(second),
    ensures
        is_zalgo_bytes(first + second.drop_first()),
        decoded_bytes(first + second.drop_first()) == decoded_bytes(first) + decoded_bytes(second),
{
    let both = first + second.drop_first();
    lemma_decoded_concat(first, second);
    assert forall|i: int| 0 <= i < decoded_length(both.len()) implies is_encoded_pair(
        #[trigger] both[2 * i + 1],
        both[2 * i + 2],
    ) by {
        if i < decoded_length(first.len()) {
            assert(is_encoded_pair(first[2 * i + 1], first[2 * i + 2]));
        } else {
            let k = i - decoded_length(first.len());
            assert(is_encoded_pair(second[2 * k + 1], second[2 * k + 2]));
            assert(both[2 * i + 1] == second[2 * k + 1]);
            assert(both[2 * i + 2] == second[2 * k + 2]);
        }
    }
}

/// The first `new_len` bytes of a well-formed buffer, for an odd `new_len`,
/// are a well-formed buffer, which decodes to the beginning of the decoded
/// text.
pub proof fn lemma_zalgo_prefix(encoded: Seq<u8>, new_len: int)
    requires
        is_zalgo_bytes(encoded),
        0 <= new_len <= encoded.len(),
        new_len % 2 == 1,
    ensures
        is_zalgo_bytes(encoded.subrange(0, new_len)),
        decoded_bytes(encoded.subrange(0, new_len)) == decoded_bytes(encoded).subrange(
            0,
            (new_len - 1) / 2,
        ),
{
    let prefix = encoded.subrange(0, new_len);
    assert forall|i: int| 0 <= i < decoded_length(prefix.len()) implies is_encoded_pair(
        #[trigger] prefix[2 * i + 1],
        prefix[2 * i + 2],
    ) by {
        assert(is_encoded_pair(encoded[2 * i + 1], encoded[2 * i + 2]));
    }
    assert(decoded_bytes(prefix) =~= decoded_bytes(encoded).subrange(0, (new_len - 1) / 2));
}

/// In a well-formed buffer that is UTF-8, the characters begin at offset 0
/// and at the odd offsets.
pub proof fn lemma_zalgo_boundaries(encoded: Seq<u8>, index: int)
    requires
        is_zalgo_bytes(encoded),
        valid_utf8(encoded),
        0 <= index <= encoded.len(),
    ensures
        is_char_boundary(encoded, index) <==> index == 0 || index % 2 == 1,
{
    if index == encoded.len() {
        is_char_boundary_start_end_of_seq(encoded);
    } else {
        is_char_boundary_iff_is_leading_byte(encoded, index);
        if index > 0 {
            let i = (index - 1) / 2;
            assert(is_encoded_pair(encoded[2 * i + 1], encoded[2 * i + 2]));
        }
    }
}

/// The line, counted from 1, on which byte `i` of `text` stands: one more than
/// the number of newlines before it.
pub open spec fn line_at(text: Seq<u8>, i: int) -> int
    decreases i,
{
    if i <= 0 {
        1
    } else if text[i - 1] == 10 {
        line_at(text, i - 1) + 1
    } else {
        line_at(text, i - 1)
    }
}

/// The column, counted from 1, of byte `i` of `text`: 1 at the start and
/// right after a newline, and one more with each other byte.
pub open spec fn column_at(text: Seq<u8>, i: int) -> int
    decreases i,
{
    if i <= 0 {
        1
    } else if text[i - 1] == 10 {
        1
    } else {
        column_at(text, i - 1) + 1
    }
}

/// Whether `i` is the offset of the first byte of `text` that can not be
/// encoded.
pub open spec fn is_first_unencodable(text: Seq<u8>, i: int) -> bool {
    &&& 0 <= i < text.len()
    &&& !is_encodable(text[i])
    &&& forall|k: int| 0 <= k < i ==> is_encodable(#[trigger] text[k])
}

/// Line and column never exceed the offset by more than one.
pub proof fn lemma_position_bounds(text: Seq<u8>, i: int)
    requires
        0 <= i,
    ensures
        1 <= line_at(text, i) <= i + 1,
        1 <= column_at(text, i) <= i + 1,
    decreases i,
{
    if i > 0 {
        lemma_position_bounds(text, i - 1);
    }
}

/// The characters of the encoded form of `text`: the letter `E`, then one
/// combining mark for each byte.
pub open spec fn encoded_chars(text: Seq<u8>) -> Seq<char> {
    Seq::new(
        text.len() + 1,
        |i: int|
            if i == 0 {
                'E'
            } else {
                combining_mark(mapped_value(text[i - 1]) as u8)
            },
    )
}

/// The encoded bytes are the UTF-8 form of the encoded characters.
pub proof fn lemma_encoded_chars(text: Seq<u8>)
    requires
        is_encodable_text(text),
    ensures
        encode_utf8(encoded_chars(text)) == encoded_bytes(text),
    decreases text.len(),
{
    let chars = encoded_chars(text);
    if text.len() == 0 {
        lemma_ascii_scalar(ANCHOR);
        lemma_encode_utf8_single('E');
        assert(chars =~= seq!['E']);
        assert(encoded_bytes(text) =~= seq![ANCHOR]);
    } else {
        let head = text.drop_last();
        let v = mapped_value(text.last()) as u8;
        assert(is_encodable(text[text.len() - 1]));
        assert forall|i: int| 0 <= i < head.len() implies is_encodable(#[trigger] head[i]) by {
            assert(head[i] == text[i]);
        }
        lemma_encoded_chars(head);
        lemma_mapped_pair(text.last());
        lemma_mark_scalar(v);
        lemma_encode_utf8_single(combining_mark(v));
        lemma_encode_utf8_concat(encoded_chars(head), seq![combining_mark(v)]);
        assert(chars =~= encoded_chars(head) + seq![combining_mark(v)]);
        assert(encoded_bytes(text) =~= encoded_bytes(head) + seq![high_byte(v), low_byte(v)]);
    }
}

} // verus!
