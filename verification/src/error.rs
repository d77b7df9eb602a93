//! The errors of encoding and decoding.

use crate::messages::{decimal, decode_error_text, encode_error_text};
use crate::names::{nonprintable_ascii_repr, nonprintable_name};
use crate::strings::{
    capture_backtrace, format_char_literal, format_invalid_utf8, is_longest_valid_prefix,
    rejected_bytes, valid_up_to,
};
use std::backtrace::Backtrace;
use std::str::Utf8Error;
use std::string::FromUtf8Error;
use vstd::prelude::*;
use vstd::string::StringExecFns;

verus! {

/// What an [`EncodeError`] says: the character that could not be encoded and
/// where it stands in the input.
pub struct EncodeErrorView {
    /// The character that could not be encoded.
    pub character: char,
    /// The line of that character, counted from 1.
    pub line: int,
    /// The column of that character on its line, counted from 1.
    pub column: int,
    /// The byte offset of that character in the input, counted from 0.
    pub index: int,
}

/// The error returned when the input holds a character that can not be
/// encoded.
#[derive(Debug)]
pub struct EncodeError {
    unencodable_character: char,
    line: usize,
    column: usize,
    index: usize,
    backtrace: Backtrace,
}

impl View for EncodeError {
    type V = EncodeErrorView;

    closed spec fn view(&self) -> EncodeErrorView {
        EncodeErrorView {
            character: self.unencodable_character,
            line: self.line as int,
            column: self.column as int,
            index: self.index as int,
        }
    }
}

impl EncodeError {
    /// Creates a new error from its parts, which are taken as they are.
    pub fn new(unencodable_character: char, line: usize, column: usize, index: usize) -> (e: Self)
        ensures
            e@ == (EncodeErrorView {
                character: unencodable_character,
                line: line as int,
                column: column as int,
                index: index as int,
            }),
    {
        Self { unencodable_character, line, column, index, backtrace: capture_backtrace() }
    }

    /// Returns the 1-indexed number of the line on which the unencodable
    /// character stands.
    pub fn line(&self) -> (r: usize)
        ensures
            r == self@.line,
    {
        self.line
    }

    /// Returns the 1-indexed column of the unencodable character. Columns
    /// are counted in bytes from the start of the line.
    pub fn column(&self) -> (r: usize)
        ensures
            r == self@.column,
    {
        self.column
    }

    /// Returns the character that could not be encoded.
    pub fn char(&self) -> (r: char)
        ensures
            r == self@.character,
    {
        self.unencodable_character
    }

    /// Returns the byte offset in the input at which the unencodable
    /// character begins.
    pub fn index(&self) -> (r: usize)
        ensures
            r == self@.index,
    {
        self.index
    }

    /// Returns the name of the unencodable character where it is an ASCII
    /// control character, and `None` where it is not ASCII or has no name.
    pub fn control_name(&self) -> (r: Option<&'static str>)
        ensures
            match r {
                Some(name) => (self@.character as u32) < 128 && nonprintable_name(
                    self@.character as u8,
                ) == Some(name@),
                None => (self@.character as u32) >= 128 || nonprintable_name(
                    self@.character as u8,
                ) is None,
            },
    {
        let code = self.unencodable_character as u32;
        if code < 128 {
            nonprintable_ascii_repr(code as u8)
        } else {
            None
        }
    }

    /// The backtrace that the error holds.
    pub closed spec fn captured(&self) -> Backtrace {
        self.backtrace
    }

    /// Returns the backtrace that was captured when the error was created.
    pub fn backtrace(&self) -> (r: &Backtrace)
        ensures
            *r == self.captured(),
    {
        &self.backtrace
    }

    /// Returns the message of the error, which names the character, its
    /// byte offset, its line and its column.
    pub fn to_string(&self) -> (r: String)
        ensures
            r@ == encode_error_text(self@),
    {
        let mut message = "can not encode ".to_owned();
        message.append(format_char_literal(self.unencodable_character).as_str());
        message.append(" character at string index ");
        message.append(decimal(self.index).as_str());
        message.append(", on line ");
        message.append(decimal(self.line).as_str());
        message.append(" at column ");
        message.append(decimal(self.column).as_str());
        message
    }
}

/// What a [`DecodeError`] says.
pub enum DecodeErrorView {
    /// The input was empty.
    EmptyInput,
    /// The decoded bytes, held here, are not UTF-8.
    InvalidUtf8(Seq<u8>),
}

/// The kind of failure that a [`DecodeError`] stands for.
#[derive(Debug)]
enum DecodeErrorKind {
    /// The given string was empty.
    EmptyInput,
    /// Decoding the string resulted in invalid UTF-8.
    InvalidUtf8(FromUtf8Error),
}

/// The error returned when a string can not be decoded.
#[derive(Debug)]
pub struct DecodeError {
    kind: DecodeErrorKind,
    backtrace: Backtrace,
}

impl View for DecodeError {
    type V = DecodeErrorView;

    closed spec fn view(&self) -> DecodeErrorView {
        match self.kind {
            DecodeErrorKind::EmptyInput => DecodeErrorView::EmptyInput,
            DecodeErrorKind::InvalidUtf8(e) => DecodeErrorView::InvalidUtf8(rejected_bytes(e)),
        }
    }
}

impl DecodeError {
    /// Creates the error for an empty input from `None`, and the error for
    /// decoded bytes that are not UTF-8 from the error that rejected them.
    pub fn new(possible_error: Option<FromUtf8Error>) -> (e: Self)
        ensures
            e@ == match possible_error {
                Some(error) => DecodeErrorView::InvalidUtf8(rejected_bytes(error)),
                None => DecodeErrorView::EmptyInput,
            },
    {
        let kind = match possible_error {
            Some(error) => DecodeErrorKind::InvalidUtf8(error),
            None => DecodeErrorKind::EmptyInput,
        };
        Self { kind, backtrace: capture_backtrace() }
    }

    /// Returns whether the error happened because the given string was
    /// empty, and not because decoding resulted in invalid UTF-8.
    pub fn cause_was_empty_string(&self) -> (r: bool)
        ensures
            r == (self@ is EmptyInput),
    {
        match &self.kind {
            DecodeErrorKind::EmptyInput => true,
            DecodeErrorKind::InvalidUtf8(_) => false,
        }
    }

    /// The backtrace that the error holds.
    pub closed spec fn captured(&self) -> Backtrace {
        self.backtrace
    }

    /// Returns the backtrace that was captured when the error was created.
    pub fn backtrace(&self) -> (r: &Backtrace)
        ensures
            *r == self.captured(),
    {
        &self.backtrace
    }

    /// Returns the message of the error, which says why the string could
    /// not be decoded.
    pub fn to_string(&self) -> (r: String)
        ensures
            r@ == decode_error_text(self@),
    {
        match &self.kind {
            DecodeErrorKind::EmptyInput => {
                "could not decode the string because the string was empty".to_owned()
            },
            DecodeErrorKind::InvalidUtf8(e) => {
                let mut message =
                    "could not decode the string because decoding resulted in invalid utf8: ".to_owned();
                message.append(format_invalid_utf8(e).as_str());
                message
            },
        }
    }

    /// If the error happened because decoding resulted in invalid UTF-8,
    /// returns the error that says up to where the decoded bytes are UTF-8.
    pub fn to_utf8_error(&self) -> (r: Option<Utf8Error>)
        ensures
            match r {
                Some(error) => self@ matches DecodeErrorView::InvalidUtf8(bytes)
                    && is_longest_valid_prefix(bytes, valid_up_to(error)),
                None => self@ is EmptyInput,
            },
    {
        match &self.kind {
            DecodeErrorKind::InvalidUtf8(e) => Some(e.utf8_error()),
            DecodeErrorKind::EmptyInput => None,
        }
    }

    /// If the error happened because decoding resulted in invalid UTF-8,
    /// turns it into the error that holds the decoded bytes.
    pub fn into_from_utf8_error(self) -> (r: Option<FromUtf8Error>)
        ensures
            match r {
                Some(error) => self@ == DecodeErrorView::InvalidUtf8(rejected_bytes(error)),
                None => self@ is EmptyInput,
            },
    {
        match self.kind {
            DecodeErrorKind::InvalidUtf8(e) => Some(e),
            DecodeErrorKind::EmptyInput => None,
        }
    }
}

} // verus!
