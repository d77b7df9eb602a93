//! A reversible transcoder between printable ASCII text (plus newlines) and a
//! single Unicode grapheme cluster made of the letter `E` and combining marks.
//!
//! There are two ways of using the codec. The first is to call
//! [`zalgo_encode`] and [`zalgo_decode`] directly, and the second is to use
//! the [`ZalgoString`] type, which holds encoded text and can be decoded
//! without a check of what comes out.
//!
//! The characters U+0300 to U+036F are combining marks: any number of them
//! can follow a character without taking up a cell of their own. Each
//! printable ASCII character, and the newline, is mapped to one of them.

pub mod codec;
pub mod error;
pub mod gui;
pub mod iterators;
pub mod laws;
pub mod mapping;
pub mod messages;
pub mod model;
pub mod names;
pub mod operators;
pub mod strings;
pub mod text;
pub mod utf8_facts;
pub mod zalgo_string;

pub use codec::{zalgo_decode, zalgo_encode, zalgo_unwrap_python, zalgo_wrap_python};
pub use error::{DecodeError, EncodeError};
pub use iterators::{DecodedBytes, DecodedChars};
pub use names::nonprintable_ascii_repr;
pub use text::{expand_tabs, remove_carriage_returns};
pub use zalgo_string::ZalgoString;
