//! Timestamps as text.

use vstd::prelude::*;
use vstd::string::StringExecFns;
use crate::text::{
    append_bytes, ascii_chars, ascii_string, decimal, decimal_digits, hexadecimal,
    hexadecimal_digits, is_ascii, lemma_decimal_ascii, lemma_hexadecimal_ascii, option_text,
};

verus! {

/// The date and the time in UTC of a timestamp in seconds since 1970, as
/// `chrono` formats them with `%Y-%m-%d %H:%M:%S`. `None` for a number of
/// seconds that `chrono` has no date for.
pub uninterp spec fn date_text_of(timestamp: i64) -> Option<Seq<char>>;

/// Writes the date of a timestamp.
///
/// Calls `chrono::DateTime::from_timestamp` and formats what it returns
/// with `DateTime::format`. Assumed of them: the text depends on the number
/// of seconds alone.
#[verifier::external_body]
fn date_text(timestamp: i64) -> (r: Option<String>)
    ensures
        option_text(r) == date_text_of(timestamp),
{
    match chrono::DateTime::from_timestamp(timestamp, 0) {
        Some(datetime) => Some(datetime.format("%Y-%m-%d %H:%M:%S").to_string()),
        None => None,
    }
}

/// How far a number is from zero.
pub open spec fn magnitude(n: i64) -> nat {
    if n >= 0 {
        n as nat
    } else {
        (-n) as nat
    }
}

/// The 64 bits of a number as an unsigned number: a negative number counts
/// down from two to the power of 64.
pub open spec fn bits(n: i64) -> nat {
    if n >= 0 {
        n as nat
    } else {
        (0x1_0000_0000_0000_0000 + n) as nat
    }
}

/// A number in decimal, with a minus sign in front if it is negative.
pub open spec fn signed_decimal(n: i64) -> Seq<u8> {
    if n >= 0 {
        decimal(n as nat)
    } else {
        seq![0x2du8] + decimal(magnitude(n))
    }
}

/// What follows the date: ` (Timestamp: `, the number in decimal, ` (0x`,
/// its 64 bits in hexadecimal, and `))`.
pub open spec fn timestamp_suffix(timestamp: i64) -> Seq<u8> {
    seq![
        0x20u8, 0x28u8, 0x54u8, 0x69u8, 0x6du8, 0x65u8, 0x73u8, 0x74u8, 0x61u8, 0x6du8, 0x70u8,
        0x3au8, 0x20u8,
    ] + signed_decimal(timestamp) + seq![0x20u8, 0x28u8, 0x30u8, 0x78u8] + hexadecimal(
        bits(timestamp),
    ) + seq![0x29u8, 0x29u8]
}

/// The suffix is ASCII.
pub proof fn lemma_suffix_ascii(timestamp: i64)
    ensures
        is_ascii(timestamp_suffix(timestamp)),
{
    lemma_decimal_ascii(magnitude(timestamp));
    lemma_hexadecimal_ascii(bits(timestamp));
    let s = timestamp_suffix(timestamp);
    let number = signed_decimal(timestamp);
    let hex = hexadecimal(bits(timestamp));
    assert(is_ascii(number));
    assert forall|i: int| 0 <= i < s.len() implies #[trigger] s[i] < 0x80 by {
        if i < 13 {
        } else if i < 13 + number.len() {
            assert(s[i] == number[i - 13]);
        } else if i < 17 + number.len() {
        } else if i < 17 + number.len() + hex.len() {
            assert(s[i] == hex[i - 17 - number.len()]);
        } else {
        }
    }
}

/// Computes [`timestamp_suffix`].
fn suffix_bytes(timestamp: i64) -> (r: Vec<u8>)
    ensures
        r@ == timestamp_suffix(timestamp),
{
    let mut out: Vec<u8> = Vec::new();
    let opening: [u8; 13] = [
        0x20, 0x28, 0x54, 0x69, 0x6d, 0x65, 0x73, 0x74, 0x61, 0x6d, 0x70, 0x3a, 0x20,
    ];
    append_bytes(&mut out, vstd::array::array_as_slice(&opening));
    let unsigned: u64;
    if timestamp >= 0 {
        unsigned = timestamp as u64;
        let digits = decimal_digits(unsigned);
        append_bytes(&mut out, digits.as_slice());
    } else {
        let distance: u64 = (-(timestamp + 1)) as u64;
        unsigned = u64::MAX - distance;
        out.push(0x2d);
        let digits = decimal_digits(distance + 1);
        append_bytes(&mut out, digits.as_slice());
    }
    let middle: [u8; 4] = [0x20, 0x28, 0x30, 0x78];
    append_bytes(&mut out, vstd::array::array_as_slice(&middle));
    let hex = hexadecimal_digits(unsigned);
    append_bytes(&mut out, hex.as_slice());
    out.push(0x29);
    out.push(0x29);
    assert(out@ =~= timestamp_suffix(timestamp));
    out
}

/// The text for a timestamp in seconds since 1970: the date and the time in
/// UTC, then the number in decimal and in hexadecimal, as in
/// `2020-09-13 12:26:40 (Timestamp: 1600000000 (0x5f5e1000))`. `None` for a
/// number of seconds that has no date.
pub fn format_timestamp(timestamp: i64) -> (r: Option<String>)
    ensures
        match r {
            Some(text) => date_text_of(timestamp) matches Some(date) && text@ == date
                + ascii_chars(timestamp_suffix(timestamp)),
            None => date_text_of(timestamp).is_none(),
        },
{
    match date_text(timestamp) {
        Some(date) => {
            let suffix = suffix_bytes(timestamp);
            proof {
                lemma_suffix_ascii(timestamp);
            }
            let tail = ascii_string(suffix.as_slice());
            Some(date.concat(tail.as_str()))
        },
        None => None,
    }
}

} // verus!
