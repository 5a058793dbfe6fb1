//! Names as bytes, and the text shown for them.
//!
//! The image stores names as bytes. They stay bytes while they are decoded;
//! a `String` is made of them at the very end.

use vstd::prelude::*;
use vstd::utf8::{decode_utf8, valid_utf8};

verus! {

/// An ASCII capital letter becomes its small letter; any other byte stays.
pub open spec fn lower_byte(b: u8) -> u8 {
    if 0x41 <= b <= 0x5a {
        (b + 0x20) as u8
    } else {
        b
    }
}

/// The bytes with every ASCII capital letter made small.
pub open spec fn ascii_lowercase(s: Seq<u8>) -> Seq<u8> {
    Seq::new(s.len(), |i: int| lower_byte(s[i]))
}

/// Computes [`ascii_lowercase`].
pub fn to_ascii_lowercase(bytes: &[u8]) -> (r: Vec<u8>)
    ensures
        r@ == ascii_lowercase(bytes@),
{
    let mut out: Vec<u8> = Vec::new();
    let mut i: usize = 0;
    while i < bytes.len()
        invariant
            i <= bytes@.len(),
            out@.len() == i,
            forall|k: int| 0 <= k < i ==> out@[k] == lower_byte(bytes@[k]),
        decreases bytes@.len() - i,
    {
        let b: u8 = bytes[i];
        if 0x41 <= b && b <= 0x5a {
            out.push(b + 0x20);
        } else {
            out.push(b);
        }
        i += 1;
    }
    assert(out@ =~= ascii_lowercase(bytes@));
    out
}

/// The decimal digits of `n`, as ASCII.
pub open spec fn decimal(n: nat) -> Seq<u8>
    decreases n,
{
    if n < 10 {
        seq![(0x30 + n) as u8]
    } else {
        decimal(n / 10).push((0x30 + n % 10) as u8)
    }
}

/// Computes [`decimal`].
pub fn decimal_digits(n: u64) -> (r: Vec<u8>)
    ensures
        r@ == decimal(n as nat),
    decreases n,
{
    if n < 10 {
        let mut out: Vec<u8> = Vec::new();
        out.push(0x30 + n as u8);
        assert(out@ =~= decimal(n as nat));
        out
    } else {
        let mut out = decimal_digits(n / 10);
        out.push(0x30 + (n % 10) as u8);
        out
    }
}

/// Decimal digits are ASCII.
pub proof fn lemma_decimal_ascii(n: nat)
    ensures
        is_ascii(decimal(n)),
        decimal(n).len() >= 1,
    decreases n,
{
    if n >= 10 {
        lemma_decimal_ascii(n / 10);
    }
}

/// The small hexadecimal digit for a value below sixteen.
pub open spec fn hex_digit(n: int) -> u8 {
    if n < 10 {
        (0x30 + n) as u8
    } else {
        (0x61 + n - 10) as u8
    }
}

/// How a byte is written so that it can be read as ASCII text: a tab as
/// `\t`, a carriage return as `\r`, a line feed as `\n`; a quote, a double
/// quote or a backslash behind a backslash; another printable character as
/// itself; any other byte as `\x` and two small hexadecimal digits.
pub open spec fn escaped_byte(b: u8) -> Seq<u8> {
    if b == 0x09 {
        seq![0x5cu8, 0x74u8]
    } else if b == 0x0d {
        seq![0x5cu8, 0x72u8]
    } else if b == 0x0a {
        seq![0x5cu8, 0x6eu8]
    } else if b == 0x27 || b == 0x22 || b == 0x5c {
        seq![0x5cu8, b]
    } else if 0x20 <= b <= 0x7e {
        seq![b]
    } else {
        seq![0x5cu8, 0x78u8, hex_digit(b as int / 16), hex_digit(b as int % 16)]
    }
}

/// The bytes, each written as [`escaped_byte`] says.
pub open spec fn escaped(s: Seq<u8>) -> Seq<u8>
    decreases s.len(),
{
    if s.len() == 0 {
        Seq::empty()
    } else {
        escaped(s.drop_last()) + escaped_byte(s.last())
    }
}

/// Computes [`hex_digit`].
pub(crate) fn hex_digit_of(n: u8) -> (r: u8)
    requires
        n < 16,
    ensures
        r == hex_digit(n as int),
{
    if n < 10 {
        0x30 + n
    } else {
        0x61 + (n - 10)
    }
}

/// Computes [`escaped`].
pub fn escape_ascii(bytes: &[u8]) -> (r: Vec<u8>)
    ensures
        r@ == escaped(bytes@),
{
    let mut out: Vec<u8> = Vec::new();
    let mut i: usize = 0;
    while i < bytes.len()
        invariant
            i <= bytes@.len(),
            out@ == escaped(bytes@.subrange(0, i as int)),
        decreases bytes@.len() - i,
    {
        let b: u8 = bytes[i];
        let ghost before = out@;
        if b == 0x09 {
            out.push(0x5c);
            out.push(0x74);
        } else if b == 0x0d {
            out.push(0x5c);
            out.push(0x72);
        } else if b == 0x0a {
            out.push(0x5c);
            out.push(0x6e);
        } else if b == 0x27 || b == 0x22 || b == 0x5c {
            out.push(0x5c);
            out.push(b);
        } else if 0x20 <= b && b <= 0x7e {
            out.push(b);
        } else {
            out.push(0x5c);
            out.push(0x78);
            out.push(hex_digit_of(b / 16));
            out.push(hex_digit_of(b % 16));
        }
        proof {
            let next = bytes@.subrange(0, i + 1);
            assert(next.drop_last() =~= bytes@.subrange(0, i as int));
            assert(next.last() == b);
            assert(out@ =~= before + escaped_byte(b));
        }
        i += 1;
    }
    assert(bytes@.subrange(0, i as int) =~= bytes@);
    out
}

/// The hexadecimal digits of `n`, small and without leading zeros, as ASCII.
pub open spec fn hexadecimal(n: nat) -> Seq<u8>
    decreases n,
{
    if n < 16 {
        seq![hex_digit(n as int)]
    } else {
        hexadecimal(n / 16).push(hex_digit((n % 16) as int))
    }
}

/// Hexadecimal digits are ASCII.
pub proof fn lemma_hexadecimal_ascii(n: nat)
    ensures
        is_ascii(hexadecimal(n)),
        hexadecimal(n).len() >= 1,
    decreases n,
{
    if n >= 16 {
        lemma_hexadecimal_ascii(n / 16);
    }
}

/// Computes [`hexadecimal`].
pub fn hexadecimal_digits(n: u64) -> (r: Vec<u8>)
    ensures
        r@ == hexadecimal(n as nat),
    decreases n,
{
    if n < 16 {
        let mut out: Vec<u8> = Vec::new();
        out.push(hex_digit_of(n as u8));
        assert(out@ =~= hexadecimal(n as nat));
        out
    } else {
        let mut out = hexadecimal_digits(n / 16);
        out.push(hex_digit_of((n % 16) as u8));
        out
    }
}

/// Appends `more` to `out`.
pub(crate) fn append_bytes(out: &mut Vec<u8>, more: &[u8])
    ensures
        final(out)@ == old(out)@ + more@,
{
    let mut i: usize = 0;
    while i < more.len()
        invariant
            i <= more@.len(),
            out@ == old(out)@ + more@.subrange(0, i as int),
        decreases more@.len() - i,
    {
        out.push(more[i]);
        assert(more@.subrange(0, i + 1) =~= more@.subrange(0, i as int).push(more@[i as int]));
        i += 1;
    }
    assert(more@.subrange(0, i as int) =~= more@);
}

/// The bytes written as hexadecimal: two small digits for each.
pub open spec fn hex_of(s: Seq<u8>) -> Seq<u8> {
    Seq::new(
        2 * s.len(),
        |i: int|
            if i % 2 == 0 {
                hex_digit(s[i / 2] as int / 16)
            } else {
                hex_digit(s[i / 2] as int % 16)
            },
    )
}

/// Hexadecimal digits are ASCII.
pub proof fn lemma_hex_ascii(s: Seq<u8>)
    ensures
        is_ascii(hex_of(s)),
{
}

/// The text that UTF-8 bytes encode, and no text for other bytes.
pub open spec fn text_of(s: Seq<u8>) -> Option<Seq<char>> {
    if valid_utf8(s) {
        Some(decode_utf8(s))
    } else {
        None
    }
}

/// The characters of a string that may be missing.
pub open spec fn option_text(t: Option<String>) -> Option<Seq<char>> {
    match t {
        Some(t) => Some(t@),
        None => None,
    }
}

/// Whether every byte is an ASCII character.
pub open spec fn is_ascii(s: Seq<u8>) -> bool {
    forall|i: int| 0 <= i < s.len() ==> #[trigger] s[i] < 0x80
}

/// The characters that ASCII bytes stand for, one for each byte.
pub open spec fn ascii_chars(s: Seq<u8>) -> Seq<char> {
    Seq::new(s.len(), |i: int| s[i] as char)
}

/// ASCII bytes are UTF-8, and the text they encode has one character for
/// each byte.
pub proof fn lemma_ascii_text(s: Seq<u8>)
    requires
        is_ascii(s),
    ensures
        text_of(s) == Some(ascii_chars(s)),
{
    let chars = ascii_chars(s);
    assert(vstd::utf8::is_ascii_chars(chars)) by {
        assert forall|i: int| 0 <= i < chars.len() implies '\0' <= #[trigger] chars[i]
            <= '\u{7f}' by {
            assert(s[i] < 0x80);
        }
    }
    vstd::utf8::is_ascii_chars_encode_utf8(chars);
    assert(vstd::utf8::encode_utf8(chars) =~= s) by {
        assert forall|i: int| 0 <= i < s.len() implies vstd::utf8::encode_utf8(chars)[i]
            == s[i] by {
            assert(chars[i] as u8 == vstd::utf8::encode_utf8(chars)[i]);
            assert(s[i] < 0x80);
        }
    }
    vstd::utf8::encode_utf8_valid_utf8(chars);
    vstd::utf8::encode_utf8_decode_utf8(chars);
}

/// Turns UTF-8 bytes into a `String`.
///
/// Calls `std::str::from_utf8`. Assumed of it: it accepts exactly the byte
/// strings that are valid UTF-8, and the `str` it returns holds the
/// characters that those bytes encode.
#[verifier::external_body]
pub(crate) fn utf8_text(bytes: &[u8]) -> (r: Option<String>)
    ensures
        option_text(r) == text_of(bytes@),
{
    match std::str::from_utf8(bytes) {
        Ok(s) => Some(s.to_string()),
        Err(_) => None,
    }
}

/// Turns ASCII bytes into a `String`.
pub(crate) fn ascii_string(bytes: &[u8]) -> (r: String)
    requires
        is_ascii(bytes@),
    ensures
        r@ == ascii_chars(bytes@),
{
    proof {
        lemma_ascii_text(bytes@);
    }
    match utf8_text(bytes) {
        Some(t) => t,
        None => String::new(),
    }
}

/// Escaped bytes are ASCII.
pub proof fn lemma_escaped_ascii(s: Seq<u8>)
    ensures
        is_ascii(escaped(s)),
    decreases s.len(),
{
    if s.len() > 0 {
        lemma_escaped_ascii(s.drop_last());
        let head = escaped(s.drop_last());
        let tail = escaped_byte(s.last());
        assert(is_ascii(tail));
        assert forall|i: int| 0 <= i < (head + tail).len() implies #[trigger] (head + tail)[i]
            < 0x80 by {
            if i < head.len() {
                assert((head + tail)[i] == head[i]);
            } else {
                assert((head + tail)[i] == tail[i - head.len()]);
            }
        }
    }
}

/// The escaped form of bytes, as text.
pub open spec fn escaped_text(s: Seq<u8>) -> Seq<char> {
    ascii_chars(escaped(s))
}

/// Writes bytes out in their escaped form.
pub fn escape(bytes: &[u8]) -> (r: String)
    ensures
        r@ == escaped_text(bytes@),
{
    let e = escape_ascii(bytes);
    proof {
        lemma_escaped_ascii(bytes@);
    }
    ascii_string(e.as_slice())
}

/// The text shown for a name that must be shown whatever its bytes are: the
/// text they encode if they are UTF-8, else their escaped form.
pub open spec fn shown(s: Seq<u8>) -> Seq<char> {
    match text_of(s) {
        Some(t) => t,
        None => escaped_text(s),
    }
}

/// Computes [`shown`].
pub fn show(bytes: &[u8]) -> (r: String)
    ensures
        r@ == shown(bytes@),
{
    match utf8_text(bytes) {
        Some(t) => t,
        None => escape(bytes),
    }
}

/// The text that UTF-16 code units encode, as `String::from_utf16` decodes
/// them; `None` where they are not valid UTF-16.
pub uninterp spec fn utf16_decoded(units: Seq<u16>) -> Option<Seq<char>>;

/// Turns UTF-16 code units into a `String`.
///
/// Calls `String::from_utf16`. Assumed of it: its result depends on the code
/// units alone. What it decodes them to is not stated here.
#[verifier::external_body]
pub(crate) fn utf16_text(units: &[u16]) -> (r: Option<String>)
    ensures
        option_text(r) == utf16_decoded(units@),
{
    match String::from_utf16(units) {
        Ok(t) => Some(t),
        Err(_) => None,
    }
}

/// The text in small letters, as `str::to_lowercase` writes it.
pub uninterp spec fn lowercased(text: Seq<char>) -> Seq<char>;

/// Makes the letters of a text small, whatever their script.
///
/// Calls `str::to_lowercase`. Assumed of it: its result depends on the text
/// alone.
#[verifier::external_body]
pub(crate) fn lowercase(text: &str) -> (r: String)
    ensures
        r@ == lowercased(text@),
{
    text.to_lowercase()
}

} // verus!
