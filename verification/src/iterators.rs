//! Cursors over the decoded bytes and characters of a
//! [`ZalgoString`](crate::zalgo_string::ZalgoString), which can be read from
//! both ends.

use crate::mapping::{decode_byte_pair, is_encodable};
use crate::model::{decoded_bytes, decoded_length, is_encodable_text, is_zalgo_bytes, lemma_encode_decode};
use crate::codec::string_of_text;
use crate::utf8_facts::ascii_chars;
use crate::zalgo_string::ZalgoString;
use vstd::prelude::*;

verus! {

/// An iterator over the decoded bytes of a [`ZalgoString`].
///
/// It is obtained by calling
/// [`decoded_bytes`](ZalgoString::decoded_bytes) on a [`ZalgoString`]. It
/// decodes a byte only when that byte is asked for.
#[derive(Debug)]
pub struct DecodedBytes<'a> {
    encoded: &'a [u8],
    front: usize,
    back: usize,
}

impl<'a> View for DecodedBytes<'a> {
    type V = Seq<u8>;

    /// The decoded bytes that are still to come, from the front to the back.
    closed spec fn view(&self) -> Seq<u8> {
        decoded_bytes(self.encoded@).subrange(self.front as int, self.back as int)
    }
}

impl<'a> Clone for DecodedBytes<'a> {
    fn clone(&self) -> (r: Self)
        ensures
            r@ == self@,
    {
        proof {
            use_type_invariant(self);
        }
        DecodedBytes { encoded: self.encoded, front: self.front, back: self.back }
    }
}

impl<'a> DecodedBytes<'a> {
    /// What holds of every `DecodedBytes`: it reads a well-formed buffer,
    /// and its two ends have not passed each other.
    #[verifier::type_invariant]
    pub closed spec fn well_formed(&self) -> bool {
        &&& is_zalgo_bytes(self.encoded@)
        &&& self.front <= self.back <= decoded_length(self.encoded@.len())
    }

    /// Creates the iterator over all the decoded bytes of `zs`.
    pub fn new(zs: &'a ZalgoString) -> (r: Self)
        ensures
            r@ == zs.decoded(),
    {
        proof {
            use_type_invariant(zs);
        }
        let encoded = zs.as_bytes();
        let back = (encoded.len() - 1) / 2;
        assert(decoded_bytes(encoded@).subrange(0, back as int) =~= decoded_bytes(encoded@));
        DecodedBytes { encoded, front: 0, back }
    }

    /// Every byte that is still to come is printable ASCII or a newline.
    pub proof fn lemma_encodable(&self)
        requires
            self.well_formed(),
        ensures
            is_encodable_text(self@),
    {
        lemma_encode_decode(self.encoded@);
        assert forall|i: int| 0 <= i < self@.len() implies is_encodable(#[trigger] self@[i]) by {
            assert(self@[i] == decoded_bytes(self.encoded@)[self.front + i]);
        }
    }

    /// Decodes the pair at the given place among the decoded bytes.
    fn decode_at(&self, place: usize) -> (byte: u8)
        requires
            self.front <= place < self.back,
        ensures
            byte == self@[place - self.front],
    {
        proof {
            use_type_invariant(self);
        }
        let len = self.encoded.len();
        assert(2 * place + 2 < len);
        decode_byte_pair(self.encoded[2 * place + 1], self.encoded[2 * place + 2])
    }

    /// Takes the next decoded byte from the front, or returns `None` once
    /// there is none left, however often it is asked.
    pub fn next(&mut self) -> (r: Option<u8>)
        ensures
            match r {
                Some(byte) => old(self)@.len() > 0 && byte == old(self)@[0] && final(self)@ == old(
                    self,
                )@.drop_first(),
                None => old(self)@.len() == 0 && final(self)@ == old(self)@,
            },
    {
        proof {
            use_type_invariant(&*self);
        }
        if self.front < self.back {
            let byte = self.decode_at(self.front);
            self.front += 1;
            assert(self@ =~= old(self)@.drop_first());
            Some(byte)
        } else {
            None
        }
    }

    /// Takes the next decoded byte from the back, or returns `None` once
    /// there is none left, however often it is asked.
    pub fn next_back(&mut self) -> (r: Option<u8>)
        ensures
            match r {
                Some(byte) => old(self)@.len() > 0 && byte == old(self)@.last() && final(self)@
                    == old(self)@.drop_last(),
                None => old(self)@.len() == 0 && final(self)@ == old(self)@,
            },
    {
        proof {
            use_type_invariant(&*self);
        }
        if self.front < self.back {
            let byte = self.decode_at(self.back - 1);
            self.back -= 1;
            assert(self@ =~= old(self)@.drop_last());
            Some(byte)
        } else {
            None
        }
    }

    /// Returns how many decoded bytes are still to come.
    pub fn len(&self) -> (r: usize)
        ensures
            r == self@.len(),
    {
        proof {
            use_type_invariant(self);
        }
        self.back - self.front
    }

    /// Returns the bounds on how many decoded bytes are still to come. Both
    /// are the exact number.
    pub fn size_hint(&self) -> (r: (usize, Option<usize>))
        ensures
            r.0 == self@.len(),
            r.1 == Some(r.0),
    {
        let left = self.len();
        (left, Some(left))
    }

    /// Skips `n` decoded bytes from the front and takes the one after them.
    /// Where there are not that many left, takes them all and returns
    /// `None`.
    pub fn nth(&mut self, n: usize) -> (r: Option<u8>)
        ensures
            match r {
                Some(byte) => n < old(self)@.len() && byte == old(self)@[n as int] && final(self)@
                    == old(self)@.subrange(n + 1, old(self)@.len() as int),
                None => n >= old(self)@.len() && final(self)@.len() == 0,
            },
    {
        proof {
            use_type_invariant(&*self);
        }
        if n < self.back - self.front {
            let place = self.front + n;
            let byte = self.decode_at(place);
            self.front = place + 1;
            assert(self@ =~= old(self)@.subrange(n + 1, old(self)@.len() as int));
            Some(byte)
        } else {
            self.front = self.back;
            None
        }
    }

    /// Skips `n` decoded bytes from the back and takes the one before them.
    /// Where there are not that many left, takes them all and returns
    /// `None`.
    pub fn nth_back(&mut self, n: usize) -> (r: Option<u8>)
        ensures
            match r {
                Some(byte) => n < old(self)@.len() && byte == old(self)@[old(self)@.len() - 1 - n]
                    && final(self)@ == old(self)@.subrange(0, old(self)@.len() - 1 - n),
                None => n >= old(self)@.len() && final(self)@.len() == 0,
            },
    {
        proof {
            use_type_invariant(&*self);
        }
        if n < self.back - self.front {
            let place = self.back - 1 - n;
            let byte = self.decode_at(place);
            self.back = place;
            assert(self@ =~= old(self)@.subrange(0, old(self)@.len() - 1 - n));
            Some(byte)
        } else {
            self.back = self.front;
            None
        }
    }

    /// Returns the last of the decoded bytes that are still to come.
    pub fn last(self) -> (r: Option<u8>)
        ensures
            match r {
                Some(byte) => self@.len() > 0 && byte == self@.last(),
                None => self@.len() == 0,
            },
    {
        proof {
            use_type_invariant(&self);
        }
        if self.front < self.back {
            Some(self.decode_at(self.back - 1))
        } else {
            None
        }
    }

    /// Returns how many decoded bytes are still to come.
    pub fn count(self) -> (r: usize)
        ensures
            r == self@.len(),
    {
        self.len()
    }

    /// Takes all the decoded bytes that are still to come, from the front
    /// to the back.
    pub fn collect(self) -> (r: Vec<u8>)
        ensures
            r@ == self@,
    {
        let mut rest = self;
        let mut bytes: Vec<u8> = Vec::with_capacity(rest.len());
        while rest.len() > 0
            invariant
                self@ == bytes@ + rest@,
            decreases rest@.len(),
        {
            if let Some(byte) = rest.next() {
                bytes.push(byte);
            }
            assert(self@ =~= bytes@ + rest@);
        }
        assert(bytes@ =~= self@);
        bytes
    }

    /// Takes all the decoded bytes that are still to come, from the back to
    /// the front.
    pub fn collect_reversed(self) -> (r: Vec<u8>)
        ensures
            r@ == self@.reverse(),
    {
        let mut rest = self;
        let mut bytes: Vec<u8> = Vec::with_capacity(rest.len());
        while rest.len() > 0
            invariant
                rest@.len() + bytes@.len() == self@.len(),
                rest@ == self@.subrange(0, rest@.len() as int),
                forall|i: int|
                    0 <= i < bytes@.len() ==> #[trigger] bytes@[i] == self@[self@.len() - 1 - i],
            decreases rest@.len(),
        {
            if let Some(byte) = rest.next_back() {
                bytes.push(byte);
            }
            assert(rest@ =~= self@.subrange(0, rest@.len() as int));
        }
        assert(bytes@ =~= self@.reverse());
        bytes
    }
}

/// An iterator over the decoded characters of a [`ZalgoString`].
///
/// It is obtained by calling
/// [`decoded_chars`](ZalgoString::decoded_chars) on a [`ZalgoString`].
#[derive(Debug)]
pub struct DecodedChars<'a>(DecodedBytes<'a>);

impl<'a> View for DecodedChars<'a> {
    type V = Seq<char>;

    /// The decoded characters that are still to come, from the front to the
    /// back.
    closed spec fn view(&self) -> Seq<char> {
        ascii_chars(self.0@)
    }
}

impl<'a> Clone for DecodedChars<'a> {
    fn clone(&self) -> (r: Self)
        ensures
            r@ == self@,
    {
        DecodedChars(self.0.clone())
    }
}

impl<'a> DecodedChars<'a> {
    /// The decoded bytes that are still to come: each character is one
    /// byte.
    pub closed spec fn bytes(&self) -> Seq<u8> {
        self.0@
    }

    /// The characters that are still to come are the bytes that are still
    /// to come, each read as ASCII.
    pub proof fn lemma_chars_of_bytes(&self)
        ensures
            self@ == ascii_chars(self.bytes()),
    {
    }

    /// Creates the iterator over all the decoded characters of `zs`.
    pub fn new(zs: &'a ZalgoString) -> (r: Self)
        ensures
            r@ == ascii_chars(zs.decoded()),
            r.bytes() == zs.decoded(),
    {
        DecodedChars(DecodedBytes::new(zs))
    }

    /// Takes the next decoded character from the front, or returns `None`
    /// once there is none left, however often it is asked.
    pub fn next(&mut self) -> (r: Option<char>)
        ensures
            match r {
                Some(c) => old(self)@.len() > 0 && c == old(self)@[0] && final(self)@ == old(
                    self,
                )@.drop_first() && final(self).bytes() == old(self).bytes().drop_first(),
                None => old(self)@.len() == 0 && final(self)@ == old(self)@ && final(self).bytes()
                    == old(self).bytes(),
            },
    {
        match self.0.next() {
            Some(byte) => {
                assert(self@ =~= old(self)@.drop_first());
                Some(byte as char)
            },
            None => None,
        }
    }

    /// Takes the next decoded character from the back, or returns `None`
    /// once there is none left, however often it is asked.
    pub fn next_back(&mut self) -> (r: Option<char>)
        ensures
            match r {
                Some(c) => old(self)@.len() > 0 && c == old(self)@.last() && final(self)@ == old(
                    self,
                )@.drop_last() && final(self).bytes() == old(self).bytes().drop_last(),
                None => old(self)@.len() == 0 && final(self)@ == old(self)@ && final(self).bytes()
                    == old(self).bytes(),
            },
    {
        match self.0.next_back() {
            Some(byte) => {
                assert(self@ =~= old(self)@.drop_last());
                Some(byte as char)
            },
            None => None,
        }
    }

    /// Returns how many decoded characters are still to come.
    pub fn len(&self) -> (r: usize)
        ensures
            r == self@.len(),
    {
        self.0.len()
    }

    /// Returns the bounds on how many decoded characters are still to come.
    /// Both are the exact number.
    pub fn size_hint(&self) -> (r: (usize, Option<usize>))
        ensures
            r.0 == self@.len(),
            r.1 == Some(r.0),
    {
        self.0.size_hint()
    }

    /// Skips `n` decoded characters from the front and takes the one after
    /// them. Where there are not that many left, takes them all and returns
    /// `None`.
    pub fn nth(&mut self, n: usize) -> (r: Option<char>)
        ensures
            match r {
                Some(c) => n < old(self)@.len() && c == old(self)@[n as int] && final(self)@
                    == old(self)@.subrange(n + 1, old(self)@.len() as int),
                None => n >= old(self)@.len() && final(self)@.len() == 0,
            },
    {
        match self.0.nth(n) {
            Some(byte) => {
                assert(self@ =~= old(self)@.subrange(n + 1, old(self)@.len() as int));
                Some(byte as char)
            },
            None => None,
        }
    }

    /// Skips `n` decoded characters from the back and takes the one before
    /// them. Where there are not that many left, takes them all and returns
    /// `None`.
    pub fn nth_back(&mut self, n: usize) -> (r: Option<char>)
        ensures
            match r {
                Some(c) => n < old(self)@.len() && c == old(self)@[old(self)@.len() - 1 - n]
                    && final(self)@ == old(self)@.subrange(0, old(self)@.len() - 1 - n),
                None => n >= old(self)@.len() && final(self)@.len() == 0,
            },
    {
        match self.0.nth_back(n) {
            Some(byte) => {
                assert(self@ =~= old(self)@.subrange(0, old(self)@.len() - 1 - n));
                Some(byte as char)
            },
            None => None,
        }
    }

    /// Returns the last of the decoded characters that are still to come.
    pub fn last(self) -> (r: Option<char>)
        ensures
            match r {
                Some(c) => self@.len() > 0 && c == self@.last(),
                None => self@.len() == 0,
            },
    {
        match self.0.last() {
            Some(byte) => Some(byte as char),
            None => None,
        }
    }

    /// Returns how many decoded characters are still to come.
    pub fn count(self) -> (r: usize)
        ensures
            r == self@.len(),
    {
        self.0.count()
    }

    /// Takes all the decoded characters that are still to come, from the
    /// front to the back, into a new string.
    pub fn collect(self) -> (r: String)
        ensures
            r@ == self@,
    {
        proof {
            use_type_invariant(&self.0);
            self.0.lemma_encodable();
        }
        string_of_text(self.0.collect())
    }

    /// Takes all the decoded characters that are still to come, from the
    /// back to the front, into a new string.
    pub fn collect_reversed(self) -> (r: String)
        ensures
            r@ == self@.reverse(),
    {
        proof {
            use_type_invariant(&self.0);
            self.0.lemma_encodable();
            let bytes = self.0@;
            assert forall|i: int| 0 <= i < bytes.reverse().len() implies is_encodable(
                #[trigger] bytes.reverse()[i],
            ) by {
                assert(is_encodable(bytes[bytes.len() - 1 - i]));
            }
            assert(ascii_chars(bytes.reverse()) =~= ascii_chars(bytes).reverse());
        }
        string_of_text(self.0.collect_reversed())
    }
}

} // verus!
