//! Encoding text into a grapheme cluster and decoding it again.

use crate::error::{DecodeError, DecodeErrorView, EncodeError};
use crate::mapping::{decode_byte_pair, encodable, encode_byte, is_encodable, ANCHOR};
use crate::model::{
    column_at, decoded_bytes, encoded_bytes, encoded_chars, is_encodable_text,
    is_first_unencodable, lemma_encoded_chars, lemma_position_bounds, line_at,
};
use crate::utf8_facts::{
    ascii_chars, lemma_ascii_bytes, lemma_char_at_byte, lemma_encode_utf8_injective,
    lemma_first_byte,
};
use vstd::pervasive::unreached;
use vstd::prelude::*;
use vstd::std_specs::vec::axiom_spec_len;
use vstd::string::{StrSliceExecFns, StringExecFns};
use vstd::utf8::{encode_utf8, encode_utf8_valid_utf8, valid_utf8};

verus! {

/// What encoding the text `chars` must give: the encoded form where every
/// byte of the text can be encoded; otherwise the error that names the first
/// character that can not, with its line, column and byte offset.
pub open spec fn is_encode_result(chars: Seq<char>, res: Result<Seq<char>, EncodeError>) -> bool {
    let text = encode_utf8(chars);
    match res {
        Ok(encoded) => {
            &&& is_encodable_text(text)
            &&& encoded == encoded_chars(text)
            &&& encode_utf8(encoded) == encoded_bytes(text)
        },
        Err(e) => {
            &&& is_first_unencodable(text, e@.index)
            &&& e@.line == line_at(text, e@.index)
            &&& e@.column == column_at(text, e@.index)
            &&& e@.index < chars.len()
            &&& e@.character == chars[e@.index]
        },
    }
}

/// Takes in a string slice that consists of only printable ASCII and newline
/// characters and encodes it into a single grapheme cluster: the letter `E`
/// followed by one combining mark for each byte.
///
/// # Errors
///
/// Returns an error if the input contains a byte that does not correspond to
/// a printable ASCII character or newline. The error names the first such
/// character. Every byte before it is ASCII, so its byte offset is also its
/// place among the characters.
pub fn zalgo_encode(string: &str) -> (res: Result<String, EncodeError>)
    ensures
        is_encode_result(
            string@,
            match res {
                Ok(s) => Ok(s@),
                Err(e) => Err(e),
            },
        ),
{
    let bytes = string.as_bytes();
    let len = bytes.len();
    let mut result: Vec<u8> = if len <= (usize::MAX - 1) / 2 {
        Vec::with_capacity(2 * len + 1)
    } else {
        Vec::new()
    };
    result.push(ANCHOR);
    let mut line: usize = 1;
    let mut column: usize = 1;
    let mut i: usize = 0;
    assert(result@ =~= encoded_bytes(bytes@.subrange(0, 0)));
    while i < len
        invariant
            bytes@ == encode_utf8(string@),
            len == bytes@.len(),
            i <= len,
            forall|k: int| 0 <= k < i ==> is_encodable(#[trigger] bytes@[k]),
            result@ == encoded_bytes(bytes@.subrange(0, i as int)),
            line == line_at(bytes@, i as int),
            column == column_at(bytes@, i as int),
        decreases len - i,
    {
        let byte = bytes[i];
        if encodable(byte) {
            let pair = encode_byte(byte);
            result.push(pair.0);
            result.push(pair.1);
            proof {
                axiom_spec_len(&result);
                lemma_position_bounds(bytes@, i as int);
                let head = bytes@.subrange(0, i as int);
                let more = bytes@.subrange(0, i + 1);
                assert(more =~= head.push(byte));
                assert(result@ =~= encoded_bytes(more));
            }
            if byte == 10 {
                line += 1;
                column = 1;
            } else {
                column += 1;
            }
            i += 1;
        } else {
            proof {
                assert forall|k: int| 0 <= k < i implies #[trigger] encode_utf8(string@)[k]
                    < 128 by {
                    assert(is_encodable(bytes@[k]));
                }
                lemma_char_at_byte(string@, i as int);
            }
            let character = string.get_char(i);
            return Err(EncodeError::new(character, line, column, i));
        }
    }
    proof {
        assert(bytes@.subrange(0, len as int) =~= bytes@);
        lemma_encoded_chars(bytes@);
        encode_utf8_valid_utf8(encoded_chars(bytes@));
    }
    match String::from_utf8(result) {
        Ok(encoded) => {
            proof {
                lemma_encode_utf8_injective(encoded@, encoded_chars(bytes@));
            }
            Ok(encoded)
        },
        Err(_) => unreached(),
    }
}

/// What decoding the text `chars` must give: the text whose bytes are the
/// decoded bytes where those are UTF-8; otherwise the error that holds them,
/// or that says that the input was empty.
pub open spec fn is_decode_result(chars: Seq<char>, res: Result<Seq<char>, DecodeError>) -> bool {
    let decoded = decoded_bytes(encode_utf8(chars));
    match res {
        Ok(text) => chars.len() > 0 && encode_utf8(text) == decoded,
        Err(e) => if chars.len() == 0 {
            e@ is EmptyInput
        } else {
            !valid_utf8(decoded) && e@ == DecodeErrorView::InvalidUtf8(decoded)
        },
    }
}

/// Takes in a string that was encoded by [`zalgo_encode`] and decodes it
/// back into an ASCII string. The first byte is skipped and each following
/// pair of bytes is mapped back; a byte left over at the end is ignored.
///
/// # Errors
///
/// Returns an error if the input is empty, or if the decoded bytes are not
/// valid UTF-8. The latter can happen if the input was not produced by
/// [`zalgo_encode`]. Even if no error is returned in such a case the result
/// is not meaningful.
pub fn zalgo_decode(encoded: &str) -> (res: Result<String, DecodeError>)
    ensures
        is_decode_result(
            encoded@,
            match res {
                Ok(s) => Ok(s@),
                Err(e) => Err(e),
            },
        ),
{
    let bytes = encoded.as_bytes();
    proof {
        if encoded@.len() > 0 {
            lemma_first_byte(encoded@);
        }
    }
    let len = bytes.len();
    if len == 0 {
        return Err(DecodeError::new(None));
    }
    let count = (len - 1) / 2;
    let mut decoded: Vec<u8> = Vec::with_capacity(count);
    let mut written: usize = 0;
    while written < count
        invariant
            len == bytes@.len(),
            len > 0,
            count == (len - 1) / 2,
            written <= count,
            decoded@ == decoded_bytes(bytes@).subrange(0, written as int),
        decreases count - written,
    {
        let byte = decode_byte_pair(bytes[2 * written + 1], bytes[2 * written + 2]);
        decoded.push(byte);
        written += 1;
        assert(decoded@ =~= decoded_bytes(bytes@).subrange(0, written as int));
    }
    assert(decoded@ =~= decoded_bytes(bytes@));
    match String::from_utf8(decoded) {
        Ok(text) => {
            proof {
                encode_utf8_valid_utf8(text@);
            }
            Ok(text)
        },
        Err(error) => Err(DecodeError::new(Some(error))),
    }
}

/// The text of the Python wrapper around an encoded payload: a program
/// that decodes the payload and executes it.
pub open spec fn python_wrapper(encoded: Seq<char>) -> Seq<char> {
    "b='"@ + encoded
        + "'.encode();exec(''.join(chr(((h<<6&64|c&63)+22)%133+10)for h,c in zip(b[1::2],b[2::2])))"@
}

/// Encodes a string that holds Python code and wraps it in a decoder that
/// decodes and executes it. The resulting Python code does what the code
/// that was wrapped does.
///
/// # Errors
///
/// Returns the error of [`zalgo_encode`] if the input contains a byte that
/// does not correspond to a printable ASCII character or newline.
pub fn zalgo_wrap_python(python: &str) -> (res: Result<String, EncodeError>)
    ensures
        match res {
            Ok(wrapped) => is_encodable_text(encode_utf8(python@)) && wrapped@ == python_wrapper(
                encoded_chars(encode_utf8(python@)),
            ),
            Err(e) => is_encode_result(python@, Err(e)),
        },
{
    match zalgo_encode(python) {
        Ok(encoded) => {
            let mut wrapped = "b='".to_owned();
            wrapped.append(encoded.as_str());
            wrapped.append(
                "'.encode();exec(''.join(chr(((h<<6&64|c&63)+22)%133+10)for h,c in zip(b[1::2],b[2::2])))",
            );
            Ok(wrapped)
        },
        Err(e) => Err(e),
    }
}

/// The text between the fixed head and tail of a Python wrapper: what is
/// left of `wrapped` without its first 3 and its last 88 characters, and
/// nothing where it is shorter than that.
pub open spec fn python_payload(wrapped: Seq<char>) -> Seq<char> {
    if wrapped.len() >= 91 {
        wrapped.subrange(3, wrapped.len() - 88)
    } else {
        Seq::empty()
    }
}

/// Takes the payload out of a Python wrapper made by [`zalgo_wrap_python`]
/// and decodes it. The wrapper's head and tail are cut off by their length,
/// without a look at what they hold.
///
/// # Errors
///
/// Returns the error of [`zalgo_decode`] on the payload; a text too short to
/// hold a payload counts as an empty one.
pub fn zalgo_unwrap_python(wrapped: &str) -> (res: Result<String, DecodeError>)
    ensures
        is_decode_result(
            python_payload(wrapped@),
            match res {
                Ok(s) => Ok(s@),
                Err(e) => Err(e),
            },
        ),
{
    let count = wrapped.unicode_len();
    if count >= 91 {
        zalgo_decode(wrapped.substring_char(3, count - 88))
    } else {
        Err(DecodeError::new(None))
    }
}

/// Makes a string of bytes that are printable ASCII or newlines. Such bytes
/// always are a string.
pub(crate) fn string_of_text(bytes: Vec<u8>) -> (r: String)
    requires
        is_encodable_text(bytes@),
    ensures
        r@ == ascii_chars(bytes@),
        encode_utf8(r@) == bytes@,
{
    proof {
        assert forall|i: int| 0 <= i < bytes@.len() implies #[trigger] bytes@[i] < 128 by {
            assert(is_encodable(bytes@[i]));
        }
        lemma_ascii_bytes(bytes@);
        encode_utf8_valid_utf8(ascii_chars(bytes@));
    }
    let ghost text = bytes@;
    match String::from_utf8(bytes) {
        Ok(string) => {
            proof {
                lemma_encode_utf8_injective(string@, ascii_chars(text));
            }
            string
        },
        Err(_) => unreached(),
    }
}

} // verus!
