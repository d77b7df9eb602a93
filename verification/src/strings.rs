//! What this library takes on trust from the standard library's strings:
//! the contracts below are stated, not proved.

use std::backtrace::Backtrace;
use std::ops::{RangeFrom, RangeFull, RangeInclusive, RangeTo, RangeToInclusive};
use std::str::{Bytes, CharIndices, Utf8Error};
use std::string::FromUtf8Error;
use vstd::prelude::*;
use vstd::utf8::{encode_utf8, is_char_boundary, valid_utf8};

verus! {

/// `std::string::FromUtf8Error`, the error of `String::from_utf8`. It is
/// carried through as it is.
#[verifier::external_type_specification]
#[verifier::external_body]
pub struct ExFromUtf8Error(FromUtf8Error);

/// `std::str::Utf8Error`, which says where a byte sequence stops being
/// UTF-8. It is carried through as it is.
#[verifier::external_type_specification]
#[verifier::external_body]
pub struct ExUtf8Error(Utf8Error);

/// `std::backtrace::Backtrace`. It is carried through as it is.
#[verifier::external_type_specification]
#[verifier::external_body]
pub struct ExBacktrace(Backtrace);

/// `std::ops::RangeTo`, the range `..end`.
#[verifier::external_type_specification]
#[verifier::reject_recursive_types(Idx)]
pub struct ExRangeTo<Idx>(RangeTo<Idx>);

/// `std::ops::RangeFrom`, the range `start..`.
#[verifier::external_type_specification]
#[verifier::reject_recursive_types(Idx)]
pub struct ExRangeFrom<Idx>(RangeFrom<Idx>);

/// `std::ops::RangeToInclusive`, the range `..=end`.
#[verifier::external_type_specification]
#[verifier::reject_recursive_types(Idx)]
pub struct ExRangeToInclusive<Idx>(RangeToInclusive<Idx>);

/// `std::ops::RangeFull`, the range `..`.
#[verifier::external_type_specification]
pub struct ExRangeFull(RangeFull);

/// `std::str::Bytes`, the iterator over the bytes of a string slice. It is
/// carried through as it is.
#[verifier::external_type_specification]
#[verifier::external_body]
pub struct ExBytes<'a>(Bytes<'a>);

/// `std::str::CharIndices`, the iterator over the characters of a string
/// slice and their byte offsets. It is carried through as it is.
#[verifier::external_type_specification]
#[verifier::external_body]
pub struct ExCharIndices<'a>(CharIndices<'a>);

/// The bytes that a `Bytes` iterator has still to give, in their order.
pub uninterp spec fn bytes_to_come(iter: Bytes<'_>) -> Seq<u8>;

/// The pairs of byte offset and character that a `CharIndices` iterator has
/// still to give, in their order.
pub uninterp spec fn char_indices_to_come(iter: CharIndices<'_>) -> Seq<(usize, char)>;

/// The byte offset at which character `i` of the text `chars` begins in its
/// UTF-8 form.
pub open spec fn char_offset(chars: Seq<char>, i: int) -> nat {
    encode_utf8(chars.subrange(0, i)).len()
}

/// The bytes that a `FromUtf8Error` holds, which `FromUtf8Error::as_bytes`
/// and `FromUtf8Error::into_bytes` hand out: the bytes that were given to
/// `String::from_utf8`.
pub uninterp spec fn rejected_bytes(error: FromUtf8Error) -> Seq<u8>;

/// What `Utf8Error::valid_up_to` returns: the length of the part of the
/// input that was found to be UTF-8.
pub uninterp spec fn valid_up_to(error: Utf8Error) -> nat;

/// Whether `n` is the length of the longest prefix of `bytes` that is UTF-8,
/// where `bytes` as a whole is not.
pub open spec fn is_longest_valid_prefix(bytes: Seq<u8>, n: nat) -> bool {
    &&& n < bytes.len()
    &&& valid_utf8(bytes.subrange(0, n as int))
    &&& forall|m: int| n < m <= bytes.len() ==> !valid_utf8(#[trigger] bytes.subrange(0, m))
}

/// `String::from_utf8` succeeds exactly on valid UTF-8 and then gives the
/// string with those bytes. Otherwise its error holds the bytes it was
/// given.
pub assume_specification[ String::from_utf8 ](vec: Vec<u8>) -> (res: Result<String, FromUtf8Error>)
    ensures
        res is Ok <==> valid_utf8(vec@),
        res matches Ok(s) ==> encode_utf8(s@) == vec@,
        res matches Err(e) ==> rejected_bytes(e) == vec@,
;

/// `FromUtf8Error::utf8_error` gives the error that says up to where the
/// rejected bytes are UTF-8.
pub assume_specification[ FromUtf8Error::utf8_error ](error: &FromUtf8Error) -> (res: Utf8Error)
    ensures
        is_longest_valid_prefix(rejected_bytes(*error), valid_up_to(res)),
;

/// `String::into_bytes` gives the bytes of the string, its UTF-8 form.
pub assume_specification[ String::into_bytes ](s: String) -> (res: Vec<u8>)
    ensures
        res@ == encode_utf8(s@),
;

/// `String::truncate` keeps the first `new_len` bytes, and changes nothing
/// where the string is no longer than that. It panics where `new_len` falls
/// inside a character: such a call is not admitted.
pub assume_specification[ String::truncate ](s: &mut String, new_len: usize)
    requires
        new_len <= encode_utf8(old(s)@).len() ==> is_char_boundary(
            encode_utf8(old(s)@),
            new_len as int,
        ),
    ensures
        new_len <= encode_utf8(old(s)@).len() ==> encode_utf8(final(s)@) == encode_utf8(
            old(s)@,
        ).subrange(0, new_len as int),
        new_len > encode_utf8(old(s)@).len() ==> final(s)@ == old(s)@,
;

/// `String::remove` at offset 0 takes the first character out of the string
/// and returns it. Other offsets are not admitted here.
pub assume_specification[ String::remove ](s: &mut String, idx: usize) -> (res: char)
    requires
        idx == 0,
        old(s)@.len() > 0,
    ensures
        res == old(s)@[0],
        final(s)@ == old(s)@.drop_first(),
;

/// `String::push` appends the given character to the end of the string.
pub assume_specification[ String::push ](s: &mut String, ch: char)
    ensures
        final(s)@ == old(s)@.push(ch),
;

/// `String::reserve` leaves the text as it is. It panics where the capacity
/// asked for exceeds `isize::MAX` bytes: such a call is not admitted.
pub assume_specification[ String::reserve ](s: &mut String, additional: usize)
    requires
        encode_utf8(old(s)@).len() + additional <= isize::MAX,
    ensures
        final(s)@ == old(s)@,
;

/// `String::reserve_exact` leaves the text as it is. It panics where the
/// capacity asked for exceeds `isize::MAX` bytes: such a call is not
/// admitted.
pub assume_specification[ String::reserve_exact ](s: &mut String, additional: usize)
    requires
        encode_utf8(old(s)@).len() + additional <= isize::MAX,
    ensures
        final(s)@ == old(s)@,
;

/// `str::bytes` gives an iterator over the bytes of the string slice, its
/// UTF-8 form.
pub assume_specification[ str::bytes ](s: &str) -> (iter: Bytes<'_>)
    ensures
        bytes_to_come(iter) == encode_utf8(s@),
;

/// `str::char_indices` gives an iterator over the characters of the string
/// slice, each with the byte offset at which it begins.
pub assume_specification[ str::char_indices ](s: &str) -> (iter: CharIndices<'_>)
    ensures
        char_indices_to_come(iter).len() == s@.len(),
        forall|i: int|
            0 <= i < s@.len() ==> #[trigger] char_indices_to_come(iter)[i] == (
                char_offset(s@, i) as usize,
                s@[i],
            ),
;

/// `RangeInclusive::start` gives the lower bound of the range.
pub assume_specification<Idx>[ RangeInclusive::<Idx>::start ](range: &RangeInclusive<Idx>) -> (res:
    &Idx)
    ensures
        *res == range@.start,
;

/// `RangeInclusive::end` gives the upper bound of the range.
pub assume_specification<Idx>[ RangeInclusive::<Idx>::end ](range: &RangeInclusive<Idx>) -> (res:
    &Idx)
    ensures
        *res == range@.end,
;

/// `String::capacity` gives the size of the string's buffer in bytes. The
/// length of a `String` is always less than or equal to its capacity; how
/// much more the buffer holds depends on what the allocator gave.
pub assume_specification[ String::capacity ](s: &String) -> (res: usize)
    ensures
        res >= encode_utf8(s@).len(),
;

/// Whether the offsets `start` and `end` mark off a part of the UTF-8 text
/// `bytes`: they lie within it, in this order, and neither falls inside a
/// character.
pub open spec fn is_char_range(bytes: Seq<u8>, start: int, end: int) -> bool {
    &&& 0 <= start <= end <= bytes.len()
    &&& is_char_boundary(bytes, start)
    &&& is_char_boundary(bytes, end)
}

/// `str::get` with a range of byte offsets gives the part of the string
/// between them, and `None` where the range does not lie within the string
/// or an end of it falls inside a character.
#[verifier::external_body]
pub(crate) fn str_get(s: &str, start: usize, end: usize) -> (res: Option<&str>)
    ensures
        res.is_some() == is_char_range(encode_utf8(s@), start as int, end as int),
        res matches Some(part) ==> encode_utf8(part@) == encode_utf8(s@).subrange(
            start as int,
            end as int,
        ),
{
    s.get(start..end)
}

/// How `format!` writes a character with `{:?}`: as a `char` literal,
/// between single quotes and with an escape where the character needs one.
pub uninterp spec fn char_literal_text(character: char) -> Seq<char>;

/// How `format!` writes, with `{}`, the `FromUtf8Error` that holds the given
/// bytes: what it prints says where the bytes stop being UTF-8.
pub uninterp spec fn invalid_utf8_text(bytes: Seq<u8>) -> Seq<char>;

/// Writes a character as a `char` literal with `format!`.
#[verifier::external_body]
pub(crate) fn format_char_literal(character: char) -> (res: String)
    ensures
        res@ == char_literal_text(character),
{
    format!("{:?}", character)
}

/// Writes a `FromUtf8Error` with `format!`. What it prints is settled by
/// the bytes that the error holds.
#[verifier::external_body]
pub(crate) fn format_invalid_utf8(error: &FromUtf8Error) -> (res: String)
    ensures
        res@ == invalid_utf8_text(rejected_bytes(*error)),
{
    format!("{}", error)
}

/// Captures a backtrace with `Backtrace::capture`. What it holds depends on
/// the environment: nothing is stated of it.
#[verifier::external_body]
pub(crate) fn capture_backtrace() -> Backtrace {
    Backtrace::capture()
}

} // verus!
