//! A string that is known to hold an encoded grapheme cluster.
//!
//! A `ZalgoString` can only be made by encoding, so it can always be decoded
//! without a second look at what the decoded bytes are.

use crate::codec::{is_encode_result, string_of_text, zalgo_encode};
use crate::error::EncodeError;
use crate::iterators::{DecodedBytes, DecodedChars};
use crate::mapping::{decode_byte_pair, is_encodable, ANCHOR};
use crate::model::{
    decoded_bytes, encoded_bytes, encoded_chars, is_encodable_text, is_zalgo_bytes,
    lemma_decode_encode, lemma_encode_decode, lemma_encoded_chars, lemma_encoded_is_zalgo,
    lemma_zalgo_boundaries, lemma_zalgo_concat, lemma_zalgo_prefix,
};
use crate::strings::{bytes_to_come, char_indices_to_come, str_get};
use crate::utf8_facts::{
    ascii_chars, lemma_ascii_scalar, lemma_encode_utf8_concat, lemma_encode_utf8_injective,
    lemma_encode_utf8_single, lemma_first_byte,
};
use std::ops::Range;
use std::str::{Bytes, CharIndices, Chars};
use vstd::prelude::*;
use vstd::std_specs::iter::IteratorSpec;
use vstd::string::StringExecFns;
use vstd::utf8::{encode_utf8, encode_utf8_valid_utf8};

verus! {

/// A [`String`] that has been encoded with [`zalgo_encode`]. It can be
/// decoded in place, and its bytes and characters can be read in both their
/// encoded and their decoded form.
#[derive(Debug, Eq, PartialOrd, Ord, Hash)]
pub struct ZalgoString(String);

impl View for ZalgoString {
    type V = Seq<char>;

    /// The encoded text: the letter `E` followed by combining marks.
    closed spec fn view(&self) -> Seq<char> {
        self.0@
    }
}

impl Clone for ZalgoString {
    fn clone(&self) -> (r: Self)
        ensures
            r@ == self@,
    {
        proof {
            use_type_invariant(self);
        }
        Self(self.0.clone())
    }
}

impl ZalgoString {
    /// The encoded bytes: the UTF-8 form of the encoded text.
    pub open spec fn encoded(&self) -> Seq<u8> {
        encode_utf8(self@)
    }

    /// The decoded bytes: the text that was encoded.
    pub open spec fn decoded(&self) -> Seq<u8> {
        decoded_bytes(self.encoded())
    }

    /// What holds of every `ZalgoString`: its bytes are the anchor followed
    /// by whole encoded pairs.
    #[verifier::type_invariant]
    pub open spec fn well_formed(&self) -> bool {
        is_zalgo_bytes(self.encoded())
    }

    /// Encodes the given string slice with [`zalgo_encode`] and stores the
    /// result in a new allocation.
    ///
    /// # Errors
    ///
    /// Returns the error of [`zalgo_encode`] if the input contains bytes
    /// that don't correspond to printable ASCII characters or newlines.
    pub fn new(s: &str) -> (res: Result<Self, EncodeError>)
        ensures
            is_encode_result(
                s@,
                match res {
                    Ok(zs) => Ok(zs@),
                    Err(e) => Err(e),
                },
            ),
            res matches Ok(zs) ==> zs.well_formed() && zs.decoded() == encode_utf8(s@),
    {
        match zalgo_encode(s) {
            Ok(encoded) => {
                proof {
                    lemma_encoded_is_zalgo(encode_utf8(s@));
                    lemma_decode_encode(encode_utf8(s@));
                }
                Ok(Self(encoded))
            },
            Err(e) => Err(e),
        }
    }

    /// Takes the text out of `self` and leaves the bare anchor in its place.
    /// A `ZalgoString` has to be well formed at every moment, so its text
    /// can not be changed where it lies: it is taken out, changed, and put
    /// back.
    fn take_text(&mut self) -> (text: String)
        ensures
            text@ == old(self)@,
            is_zalgo_bytes(encode_utf8(text@)),
    {
        proof {
            use_type_invariant(&*self);
            reveal_strlit("E");
            lemma_ascii_scalar(ANCHOR);
            lemma_encode_utf8_single('E');
            assert("E"@ =~= seq!['E']);
        }
        let mut taken = Self("E".to_owned());
        std::mem::swap(self, &mut taken);
        taken.0
    }

    /// Returns the encoded contents of `self` as a string slice.
    pub fn as_str(&self) -> (r: &str)
        ensures
            r@ == self@,
    {
        self.0.as_str()
    }

    /// Returns a copy of the encoded text, which is what a `ZalgoString`
    /// shows when it is printed.
    pub fn to_string(&self) -> (r: String)
        ensures
            r@ == self@,
    {
        self.0.clone()
    }

    /// Converts `self` into a `String`. This simply returns the underlying
    /// `String` without any cloning or decoding.
    pub fn into_string(self) -> (r: String)
        ensures
            r@ == self@,
    {
        self.0
    }

    /// Returns the encoded contents of `self` as a byte slice. The first
    /// byte is always 69.
    pub fn as_bytes(&self) -> (r: &[u8])
        ensures
            r@ == self.encoded(),
    {
        self.0.as_str().as_bytes()
    }

    /// Converts `self` into a byte vector. This simply returns the
    /// underlying buffer without any cloning or decoding.
    pub fn into_bytes(self) -> (r: Vec<u8>)
        ensures
            r@ == self.encoded(),
    {
        self.0.into_bytes()
    }

    /// Returns the length of `self` in bytes. This length is twice the
    /// length of the decoded text plus one.
    pub fn len(&self) -> (r: usize)
        ensures
            r == self.encoded().len(),
            r == 2 * self.decoded().len() + 1,
    {
        proof {
            use_type_invariant(self);
        }
        self.0.as_str().as_bytes().len()
    }

    /// Returns the capacity of the underlying encoded string in bytes. It
    /// is never less than the length; the rest is up to the allocator.
    pub fn capacity(&self) -> (r: usize)
        ensures
            r >= self.encoded().len(),
            r >= 2 * self.decoded().len() + 1,
    {
        proof {
            use_type_invariant(self);
        }
        self.0.capacity()
    }

    /// Returns the decoded length in bytes, without any decoding.
    pub fn decoded_len(&self) -> (r: usize)
        ensures
            r == self.decoded().len(),
    {
        (self.len() - 1) / 2
    }

    /// Returns whether the string would be empty if decoded.
    pub fn decoded_is_empty(&self) -> (r: bool)
        ensures
            r == (self.decoded().len() == 0),
    {
        self.decoded_len() == 0
    }

    /// The encoded text is `E` followed by one combining mark for each
    /// decoded byte, and each decoded byte is printable ASCII or a newline.
    pub proof fn lemma_encoded_text(&self)
        requires
            self.well_formed(),
        ensures
            is_encodable_text(self.decoded()),
            self@ == encoded_chars(self.decoded()),
            self.encoded() == encoded_bytes(self.decoded()),
            self.encoded().len() == 2 * self.decoded().len() + 1,
    {
        lemma_encode_decode(self.encoded());
        lemma_encoded_chars(self.decoded());
        lemma_encode_utf8_injective(self@, encoded_chars(self.decoded()));
    }

    /// Returns an iterator over the encoded characters of the
    /// `ZalgoString`. The first character is an `E`, the others are
    /// combining marks.
    pub fn chars(&self) -> (r: Chars<'_>)
        ensures
            r.remaining() == self@,
    {
        broadcast use vstd::string::axiom_spec_iter;

        self.0.as_str().chars()
    }

    /// Returns an iterator over the encoded characters of the `ZalgoString`
    /// and their byte offsets. The `E` stands at offset 0 and the combining
    /// mark of decoded byte `i` at offset `2 * i + 1`.
    pub fn char_indices(&self) -> (r: CharIndices<'_>)
        ensures
            char_indices_to_come(r).len() == self@.len(),
            self@.len() == self.decoded().len() + 1,
            char_indices_to_come(r)[0] == (0usize, 'E'),
            forall|i: int|
                0 <= i < self.decoded().len() ==> #[trigger] char_indices_to_come(r)[i + 1] == (
                    (2 * i + 1) as usize,
                    self@[i + 1],
                ),
    {
        proof {
            use_type_invariant(self);
            self.lemma_encoded_text();
        }
        let r = self.0.as_str().char_indices();
        proof {
            let text = self.decoded();
            assert(self@.subrange(0, 0) =~= Seq::<char>::empty());
            assert forall|i: int| 0 <= i < text.len() implies #[trigger] char_indices_to_come(
                r,
            )[i + 1] == ((2 * i + 1) as usize, self@[i + 1]) by {
                let head = text.subrange(0, i);
                assert forall|k: int| 0 <= k < head.len() implies is_encodable(
                    #[trigger] head[k],
                ) by {
                    assert(head[k] == text[k]);
                }
                lemma_encoded_chars(head);
                assert(self@.subrange(0, i + 1) =~= encoded_chars(head));
            }
        }
        r
    }

    /// Returns an iterator over the decoded characters of the
    /// `ZalgoString`. They are ASCII.
    pub fn decoded_chars(&self) -> (r: DecodedChars<'_>)
        ensures
            r@ == ascii_chars(self.decoded()),
            r.bytes() == self.decoded(),
    {
        DecodedChars::new(self)
    }

    /// Returns an iterator over the encoded bytes of the `ZalgoString`. The
    /// first byte is always 69.
    pub fn bytes(&self) -> (r: Bytes<'_>)
        ensures
            bytes_to_come(r) == self.encoded(),
    {
        self.0.as_str().bytes()
    }

    /// Returns an iterator over the decoded bytes of the `ZalgoString`.
    /// They are printable ASCII or newlines.
    pub fn decoded_bytes(&self) -> (r: DecodedBytes<'_>)
        ensures
            r@ == self.decoded(),
    {
        DecodedBytes::new(self)
    }

    /// Returns the part of `self` between two byte offsets, or `None` where
    /// the range does not lie within the string or an end of it falls inside
    /// a character. The characters begin at offset 0 and at the odd offsets.
    pub fn get(&self, index: Range<usize>) -> (r: Option<&str>)
        ensures
            r is Some <==> index.start <= index.end <= self.encoded().len() && (index.start == 0
                || index.start % 2 == 1) && (index.end == 0 || index.end % 2 == 1),
            r matches Some(part) ==> encode_utf8(part@) == self.encoded().subrange(
                index.start as int,
                index.end as int,
            ),
    {
        proof {
            use_type_invariant(self);
            encode_utf8_valid_utf8(self@);
            if index.start <= self.encoded().len() {
                lemma_zalgo_boundaries(self.encoded(), index.start as int);
            }
            if index.end <= self.encoded().len() {
                lemma_zalgo_boundaries(self.encoded(), index.end as int);
            }
        }
        str_get(self.0.as_str(), index.start, index.end)
    }

    /// Decodes `self` into a byte vector in place.
    pub fn into_decoded_bytes(self) -> (r: Vec<u8>)
        ensures
            r@ == self.decoded(),
            is_encodable_text(r@),
    {
        proof {
            use_type_invariant(&self);
            lemma_encode_decode(self.encoded());
        }
        let ghost encoded = self.encoded();
        let mut bytes = self.into_bytes();
        let len = bytes.len();
        let count = (len - 1) / 2;
        let mut written: usize = 0;
        while written < count
            invariant
                bytes@.len() == len,
                encoded.len() == len,
                len % 2 == 1,
                count == (len - 1) / 2,
                written <= count,
                forall|k: int| 0 <= k < written ==> bytes@[k] == decoded_bytes(encoded)[k],
                forall|j: int| 2 * written < j < len ==> bytes@[j] == encoded[j],
            decreases count - written,
        {
            let byte = decode_byte_pair(bytes[2 * written + 1], bytes[2 * written + 2]);
            bytes.set(written, byte);
            written += 1;
        }
        bytes.truncate(count);
        assert(bytes@ =~= decoded_bytes(encoded));
        bytes
    }

    /// Decodes `self` into a `String` in place. The decoded bytes are
    /// printable ASCII and newlines, so they always are a string.
    pub fn into_decoded_string(self) -> (r: String)
        ensures
            encode_utf8(r@) == self.decoded(),
            r@ == ascii_chars(self.decoded()),
            is_encodable_text(self.decoded()),
    {
        string_of_text(self.into_decoded_bytes())
    }

    /// Returns a string slice of just the combining characters of the
    /// `ZalgoString`, without the initial `E`.
    pub fn as_combining_chars(&self) -> (r: &str)
        ensures
            r@ == self@.drop_first(),
            encode_utf8(r@) == self.encoded().drop_first(),
    {
        proof {
            use_type_invariant(self);
            encode_utf8_valid_utf8(self@);
            lemma_zalgo_boundaries(self.encoded(), 1);
            if self@.len() == 0 {
                assert(encode_utf8(self@).len() == 0);
            }
            lemma_first_byte(self@);
        }
        let parts = self.0.as_str().split_at(1);
        proof {
            assert(self.encoded().subrange(1, self.encoded().len() as int) =~= self.encoded().drop_first());
            lemma_encode_utf8_injective(parts.1@, self@.drop_first());
        }
        parts.1
    }

    /// Converts `self` into a `String` that contains only the combining
    /// characters of the grapheme cluster, without the initial `E`.
    pub fn into_combining_chars(self) -> (r: String)
        ensures
            r@ == self@.drop_first(),
            encode_utf8(r@) == self.encoded().drop_first(),
    {
        proof {
            use_type_invariant(&self);
            if self@.len() == 0 {
                assert(encode_utf8(self@).len() == 0);
            }
            lemma_first_byte(self@);
        }
        let mut text = self.0;
        text.remove(0);
        text
    }

    /// Appends the combining characters of a different `ZalgoString` to the
    /// end of `self`. The decoded text of `self` is then followed by the
    /// decoded text of the other.
    pub fn push_zalgo_str(&mut self, zalgo_string: &Self)
        ensures
            final(self)@ == old(self)@ + zalgo_string@.drop_first(),
            final(self).encoded() == old(self).encoded() + zalgo_string.encoded().drop_first(),
            final(self).decoded() == old(self).decoded() + zalgo_string.decoded(),
    {
        let tail = zalgo_string.as_combining_chars();
        proof {
            use_type_invariant(&*self);
            use_type_invariant(zalgo_string);
            lemma_encode_utf8_concat(self@, tail@);
            lemma_zalgo_concat(self.encoded(), zalgo_string.encoded());
        }
        let mut text = self.take_text();
        text.append(tail);
        *self = Self(text);
    }

    /// Encodes the given string and appends its combining characters to the
    /// end of `self`. Where the string can not be encoded, returns the error
    /// of [`zalgo_encode`] and leaves `self` as it was.
    pub fn encode_and_push_str(&mut self, string: &str) -> (res: Result<(), EncodeError>)
        ensures
            match res {
                Ok(_) => {
                    &&& is_encodable_text(encode_utf8(string@))
                    &&& final(self).encoded() == old(self).encoded() + encoded_bytes(
                        encode_utf8(string@),
                    ).drop_first()
                    &&& final(self).decoded() == old(self).decoded() + encode_utf8(string@)
                },
                Err(e) => is_encode_result(string@, Err(e)) && final(self)@ == old(self)@,
            },
    {
        match ZalgoString::new(string) {
            Ok(encoded) => {
                self.push_zalgo_str(&encoded);
                Ok(())
            },
            Err(e) => Err(e),
        }
    }

    /// Reserves capacity for at least `additional` bytes more than the
    /// current length. The text stays as it is.
    pub fn reserve(&mut self, additional: usize)
        requires
            old(self).encoded().len() + additional <= isize::MAX,
        ensures
            final(self)@ == old(self)@,
    {
        let mut text = self.take_text();
        text.reserve(additional);
        *self = Self(text);
    }

    /// Reserves capacity for exactly `additional` bytes more than the
    /// current length. The text stays as it is.
    pub fn reserve_exact(&mut self, additional: usize)
        requires
            old(self).encoded().len() + additional <= isize::MAX,
        ensures
            final(self)@ == old(self)@,
    {
        let mut text = self.take_text();
        text.reserve_exact(additional);
        *self = Self(text);
    }

    /// Shortens the `ZalgoString` to the specified length in bytes. If
    /// `new_len` is larger than its current length, this has no effect.
    ///
    /// A `ZalgoString` always takes up an odd number of bytes, as the first
    /// `E` takes up one and every character after it takes up two: a
    /// `new_len` within the string has to be odd.
    pub fn truncate(&mut self, new_len: usize)
        requires
            new_len <= old(self).encoded().len() ==> new_len % 2 == 1,
        ensures
            new_len <= old(self).encoded().len() ==> final(self).encoded() == old(
                self,
            ).encoded().subrange(0, new_len as int) && final(self).decoded() == old(
                self,
            ).decoded().subrange(0, (new_len - 1) / 2),
            new_len > old(self).encoded().len() ==> final(self)@ == old(self)@,
    {
        if new_len <= self.len() {
            proof {
                use_type_invariant(&*self);
                encode_utf8_valid_utf8(self@);
                lemma_zalgo_boundaries(self.encoded(), new_len as int);
                lemma_zalgo_prefix(self.encoded(), new_len as int);
            }
            let mut text = self.take_text();
            text.truncate(new_len);
            *self = Self(text);
        }
    }

    /// Truncates this `ZalgoString`, removing all contents except the
    /// initial `E`.
    pub fn clear(&mut self)
        ensures
            final(self).encoded() == seq![ANCHOR],
            final(self).decoded().len() == 0,
    {
        proof {
            use_type_invariant(&*self);
        }
        self.truncate(1);
        assert(self.encoded() =~= seq![ANCHOR]);
    }
}

} // verus!
