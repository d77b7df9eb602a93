//! Facts that hold across the functions of the library, each stated over
//! what their contracts say.

use crate::codec::{is_decode_result, is_encode_result, python_payload, python_wrapper};
use crate::error::{DecodeError, EncodeError};
use crate::iterators::DecodedBytes;
use crate::mapping::{is_encodable, lemma_mapped_pair, mapped_value};
use crate::model::{
    column_at, encoded_bytes, is_encodable_text, lemma_decode_encode, lemma_encoded_concat,
    lemma_encoded_is_zalgo, lemma_zalgo_concat, line_at,
};
use crate::utf8_facts::{
    ascii_chars, lemma_ascii_bytes, lemma_encode_utf8_injective, lemma_mark_scalar,
};
use crate::zalgo_string::ZalgoString;
use vstd::prelude::*;
use vstd::utf8::{encode_utf8, encode_utf8_valid_utf8};

verus! {

/// Decoding what encoding gave always succeeds and gives the text back.
pub proof fn lemma_decode_undoes_encode(
    text: Seq<char>,
    encoded: Seq<char>,
    outcome: Result<Seq<char>, DecodeError>,
)
    requires
        is_encode_result(text, Ok::<Seq<char>, EncodeError>(encoded)),
        is_decode_result(encoded, outcome),
    ensures
        outcome == Ok::<Seq<char>, DecodeError>(text),
{
    let bytes = encode_utf8(text);
    lemma_decode_encode(bytes);
    encode_utf8_valid_utf8(text);
    match outcome {
        Ok(decoded) => {
            lemma_encode_utf8_injective(decoded, text);
        },
        Err(_) => {
            assert(encoded.len() > 0);
        },
    }
}

/// Encoded text is one byte longer than twice the text, and one character
/// longer than the text has bytes.
pub proof fn lemma_encoded_length(text: Seq<char>, encoded: Seq<char>)
    requires
        is_encode_result(text, Ok::<Seq<char>, EncodeError>(encoded)),
    ensures
        encode_utf8(encoded).len() == 2 * encode_utf8(text).len() + 1,
        encoded.len() == encode_utf8(text).len() + 1,
{
    lemma_encoded_is_zalgo(encode_utf8(text));
}

/// Encoded text is the letter `E` followed by nothing but combining marks
/// from U+0300 to U+036F, which add no cell of their own to the letter they
/// follow.
pub proof fn lemma_encoded_is_one_cluster(text: Seq<char>, encoded: Seq<char>)
    requires
        is_encode_result(text, Ok::<Seq<char>, EncodeError>(encoded)),
    ensures
        encoded.len() > 0,
        encoded[0] == 'E',
        forall|i: int| 1 <= i < encoded.len() ==> 0x300 <= (#[trigger] encoded[i]) as u32 <= 0x36F,
{
    let bytes = encode_utf8(text);
    assert forall|i: int| 1 <= i < encoded.len() implies 0x300 <= (#[trigger] encoded[i]) as u32
        <= 0x36F by {
        assert(is_encodable(bytes[i - 1]));
        lemma_mapped_pair(bytes[i - 1]);
        lemma_mark_scalar(mapped_value(bytes[i - 1]) as u8);
    }
}

/// Encoding fails exactly on text that holds a byte which can not be
/// encoded, so on no text of printable ASCII and newlines.
pub proof fn lemma_encode_succeeds_on_encodable(
    text: Seq<char>,
    outcome: Result<Seq<char>, EncodeError>,
)
    requires
        is_encode_result(text, outcome),
    ensures
        outcome is Ok <==> is_encodable_text(encode_utf8(text)),
{
    if let Err(e) = outcome {
        assert(!is_encodable(encode_utf8(text)[e@.index]));
    }
}

/// What encoding gives is settled by the text: two outcomes for the same
/// text are the same encoded text, or errors that say the same.
pub proof fn lemma_encode_result_is_settled(
    text: Seq<char>,
    first: Result<Seq<char>, EncodeError>,
    second: Result<Seq<char>, EncodeError>,
)
    requires
        is_encode_result(text, first),
        is_encode_result(text, second),
    ensures
        match (first, second) {
            (Ok(a), Ok(b)) => a == b,
            (Err(a), Err(b)) => a@ == b@,
            _ => false,
        },
{
    let bytes = encode_utf8(text);
    if let Err(e) = first {
        assert(!is_encodable(bytes[e@.index]));
    }
    if let Err(e) = second {
        assert(!is_encodable(bytes[e@.index]));
    }
    if let (Err(a), Err(b)) = (first, second) {
        if a@.index < b@.index {
            assert(is_encodable(bytes[a@.index]));
        }
        if b@.index < a@.index {
            assert(is_encodable(bytes[b@.index]));
        }
    }
}

/// What decoding gives is settled by the text: two outcomes for the same
/// text are the same decoded text, or errors that say the same.
pub proof fn lemma_decode_result_is_settled(
    text: Seq<char>,
    first: Result<Seq<char>, DecodeError>,
    second: Result<Seq<char>, DecodeError>,
)
    requires
        is_decode_result(text, first),
        is_decode_result(text, second),
    ensures
        match (first, second) {
            (Ok(a), Ok(b)) => a == b,
            (Err(a), Err(b)) => a@ == b@,
            _ => false,
        },
{
    if let Ok(a) = first {
        encode_utf8_valid_utf8(a);
        if let Ok(b) = second {
            lemma_encode_utf8_injective(a, b);
        }
    }
    if let Ok(b) = second {
        encode_utf8_valid_utf8(b);
    }
}

/// The bytes that a [`DecodedBytes`] gives from the front are, in reverse,
/// the bytes that it gives from the back.
pub proof fn lemma_forward_is_backward_reversed(
    iter: DecodedBytes,
    forward: Seq<u8>,
    backward: Seq<u8>,
)
    requires
        forward == iter@,
        backward == iter@.reverse(),
    ensures
        forward == backward.reverse(),
{
    assert(iter@.reverse().reverse() =~= iter@);
}

/// Appending one `ZalgoString` to another gives the `ZalgoString` of the
/// two decoded texts joined: it decodes to the first text followed by the
/// second, and it is what encoding the joined text gives.
pub proof fn lemma_append_joins(first: ZalgoString, second: ZalgoString, joined: ZalgoString)
    requires
        first.well_formed(),
        second.well_formed(),
        joined.encoded() == first.encoded() + second.encoded().drop_first(),
    ensures
        joined.decoded() == first.decoded() + second.decoded(),
        joined.encoded() == encoded_bytes(first.decoded() + second.decoded()),
{
    first.lemma_encoded_text();
    second.lemma_encoded_text();
    lemma_zalgo_concat(first.encoded(), second.encoded());
    lemma_encoded_concat(first.decoded(), second.decoded());
}

/// Decoding the text of a `ZalgoString` with [`zalgo_decode`](crate::codec::zalgo_decode)
/// always succeeds, and gives what the `ZalgoString` decodes to without a
/// check: its decoded bytes, read as ASCII.
pub proof fn lemma_decode_of_zalgo_string(zs: ZalgoString, outcome: Result<Seq<char>, DecodeError>)
    requires
        zs.well_formed(),
        is_decode_result(zs@, outcome),
    ensures
        outcome == Ok::<Seq<char>, DecodeError>(ascii_chars(zs.decoded())),
{
    zs.lemma_encoded_text();
    let decoded = zs.decoded();
    assert forall|i: int| 0 <= i < decoded.len() implies #[trigger] decoded[i] < 128 by {
        assert(is_encodable(decoded[i]));
    }
    lemma_ascii_bytes(decoded);
    encode_utf8_valid_utf8(ascii_chars(decoded));
    match outcome {
        Ok(text) => {
            lemma_encode_utf8_injective(text, ascii_chars(decoded));
        },
        Err(_) => {
            assert(zs@.len() > 0);
        },
    }
}

/// The payload of the Python wrapper around an encoded text is that text,
/// so unwrapping what wrapping gave decodes the text that was wrapped.
pub proof fn lemma_payload_of_wrapper(encoded: Seq<char>)
    ensures
        python_payload(python_wrapper(encoded)) == encoded,
{
    reveal_strlit("b='");
    reveal_strlit(
        "'.encode();exec(''.join(chr(((h<<6&64|c&63)+22)%133+10)for h,c in zip(b[1::2],b[2::2])))",
    );
    assert(python_payload(python_wrapper(encoded)) =~= encoded);
}

/// The column of a byte is its distance from the newline before it, and
/// where there is none, its offset plus one. The line is one more than the
/// number of lines that end before the byte.
pub proof fn lemma_column_from_line_start(text: Seq<u8>, i: int, start: int)
    requires
        0 <= start <= i,
        start == 0 || text[start - 1] == 10,
        forall|k: int| start <= k < i ==> #[trigger] text[k] != 10,
    ensures
        column_at(text, i) == i - start + 1,
        line_at(text, i) == line_at(text, start),
    decreases i - start,
{
    if i > start {
        lemma_column_from_line_start(text, i - 1, start);
    }
}

} // verus!
