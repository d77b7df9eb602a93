//! The messages that the errors print.

use crate::codec::string_of_text;
use crate::error::{DecodeErrorView, EncodeErrorView};
use crate::mapping::is_encodable;
use crate::strings::{char_literal_text, invalid_utf8_text};
use crate::utf8_facts::ascii_chars;
use vstd::prelude::*;

verus! {

/// The decimal digits of `n` as ASCII bytes, without leading zeros.
pub open spec fn decimal_bytes(n: nat) -> Seq<u8>
    decreases n,
{
    if n < 10 {
        seq![(48 + n) as u8]
    } else {
        decimal_bytes(n / 10).push((48 + n % 10) as u8)
    }
}

/// The number `n` written in decimal.
pub open spec fn decimal_text(n: nat) -> Seq<char> {
    ascii_chars(decimal_bytes(n))
}

/// The message of an encoding error: it names the character, its byte
/// offset, its line and its column.
pub open spec fn encode_error_text(error: EncodeErrorView) -> Seq<char> {
    "can not encode "@ + char_literal_text(error.character) + " character at string index "@
        + decimal_text(error.index as nat) + ", on line "@ + decimal_text(error.line as nat)
        + " at column "@ + decimal_text(error.column as nat)
}

/// The message of a decoding error: it says whether the input was empty or
/// where the decoded bytes stop being UTF-8.
pub open spec fn decode_error_text(error: DecodeErrorView) -> Seq<char> {
    match error {
        DecodeErrorView::EmptyInput => "could not decode the string because the string was empty"@,
        DecodeErrorView::InvalidUtf8(bytes) => "could not decode the string because decoding resulted in invalid utf8: "@
            + invalid_utf8_text(bytes),
    }
}

/// The decimal digits of a number are digits.
pub proof fn lemma_decimal_bytes_are_digits(n: nat)
    ensures
        decimal_bytes(n).len() > 0,
        forall|i: int| 0 <= i < decimal_bytes(n).len() ==> 48 <= #[trigger] decimal_bytes(n)[i] <= 57,
    decreases n,
{
    if n >= 10 {
        lemma_decimal_bytes_are_digits(n / 10);
    }
}

/// Appends the decimal digits of `n` to `out`.
fn push_decimal(n: usize, out: &mut Vec<u8>)
    ensures
        final(out)@ == old(out)@ + decimal_bytes(n as nat),
    decreases n,
{
    if n >= 10 {
        push_decimal(n / 10, out);
    }
    let digit: u8 = (n % 10) as u8;
    out.push(48 + digit);
    assert(out@ =~= old(out)@ + decimal_bytes(n as nat));
}

/// Writes `n` in decimal.
pub fn decimal(n: usize) -> (r: String)
    ensures
        r@ == decimal_text(n as nat),
{
    let mut digits: Vec<u8> = Vec::new();
    push_decimal(n, &mut digits);
    proof {
        lemma_decimal_bytes_are_digits(n as nat);
        assert(digits@ =~= decimal_bytes(n as nat));
        assert forall|i: int| 0 <= i < digits@.len() implies is_encodable(#[trigger] digits@[i]) by {}
    }
    string_of_text(digits)
}

} // verus!
