//! Hexadecimal text: two digits per byte, high nibble first.
//!
//! Text is modelled as `Seq<char>` and raw data as `Seq<u8>`. Writing always
//! gives lowercase digits; reading takes either case.

use crate::text::lemma_ascii_bytes;
use vstd::prelude::*;
use vstd::string::*;
use vstd::utf8::*;

verus! {

/// ASCII code of `0`.
pub const DIGIT_ZERO: u8 = 0x30;

/// ASCII code of `9`.
pub const DIGIT_NINE: u8 = 0x39;

/// ASCII code of `a`.
pub const LOWER_A: u8 = 0x61;

/// ASCII code of `f`.
pub const LOWER_F: u8 = 0x66;

/// ASCII code of `A`.
pub const UPPER_A: u8 = 0x41;

/// ASCII code of `F`.
pub const UPPER_F: u8 = 0x46;

/// The value of the hexadecimal digit whose ASCII code is `c`, if `c` is one:
/// `0`-`9`, `a`-`f` or `A`-`F`.
pub open spec fn hex_value(c: u8) -> Option<u8> {
    if DIGIT_ZERO <= c <= DIGIT_NINE {
        Some((c - DIGIT_ZERO) as u8)
    } else if LOWER_A <= c <= LOWER_F {
        Some((c - LOWER_A + 10) as u8)
    } else if UPPER_A <= c <= UPPER_F {
        Some((c - UPPER_A + 10) as u8)
    } else {
        None
    }
}

/// The ASCII code of the lowercase digit that writes `v`, for `v` below 16.
pub open spec fn hex_digit(v: u8) -> u8
    recommends
        v < 16,
{
    if v < 10 {
        (DIGIT_ZERO + v) as u8
    } else {
        (LOWER_A + (v - 10)) as u8
    }
}

/// The value of the character `c` read as a hexadecimal digit, if it is one.
pub open spec fn hex_char_value(c: char) -> Option<u8> {
    if c as u32 <= 0x7f {
        hex_value(c as u8)
    } else {
        None
    }
}

/// True for the 22 characters that write a hexadecimal digit.
pub open spec fn is_hex_char(c: char) -> bool {
    ('0' <= c <= '9') || ('a' <= c <= 'f') || ('A' <= c <= 'F')
}

/// True for the 16 characters that hexadecimal text is written with.
pub open spec fn is_lower_hex_char(c: char) -> bool {
    ('0' <= c <= '9') || ('a' <= c <= 'f')
}

/// True when every character of `text` is a hexadecimal digit.
pub open spec fn is_hex_text(text: Seq<char>) -> bool {
    forall|i: int| 0 <= i < text.len() ==> is_hex_char(#[trigger] text[i])
}

/// The byte that the two digits `high` and `low` write.
pub open spec fn pair_value(high: char, low: char) -> u8
    recommends
        is_hex_char(high),
        is_hex_char(low),
{
    (hex_char_value(high).unwrap() * 16 + hex_char_value(low).unwrap()) as u8
}

/// The half of a byte that the digit at position `i` of its text stands for.
pub open spec fn nibble_at(bytes: Seq<u8>, i: int) -> u8
    recommends
        0 <= i < 2 * bytes.len(),
{
    if i % 2 == 0 {
        bytes[i / 2] / 16
    } else {
        bytes[i / 2] % 16
    }
}

/// The canonical text of `bytes`: lowercase, two digits per byte, in order.
pub open spec fn hex_encode(bytes: Seq<u8>) -> Seq<char> {
    Seq::new(2 * bytes.len(), |i: int| hex_digit(nibble_at(bytes, i)) as char)
}

/// The bytes that `text` writes, one for each pair of digits.
pub open spec fn hex_decode(text: Seq<char>) -> Seq<u8>
    recommends
        is_hex_text(text),
        text.len() % 2 == 0,
{
    Seq::new(text.len() / 2, |k: int| pair_value(text[2 * k], text[2 * k + 1]))
}

/// What reading `text` as a digest of `size` bytes gives: the bytes, when the
/// text has exactly two characters per byte and all are hexadecimal digits,
/// and nothing otherwise.
pub open spec fn parse_hex(text: Seq<char>, size: nat) -> Option<Seq<u8>> {
    if text.len() == 2 * size && is_hex_text(text) {
        Some(hex_decode(text))
    } else {
        None
    }
}

/// True when every byte of `bytes` is the ASCII code of a hexadecimal digit.
pub open spec fn is_hex_bytes(bytes: Seq<u8>) -> bool {
    forall|i: int| 0 <= i < bytes.len() ==> hex_value(#[trigger] bytes[i]) is Some
}

/// `c` with the letters `A`-`Z` replaced by `a`-`z`.
pub open spec fn to_lower_char(c: char) -> char {
    if 'A' <= c <= 'Z' {
        ((c as u8) + 0x20) as u8 as char
    } else {
        c
    }
}

/// `text` with every uppercase ASCII letter replaced by its lowercase form.
pub open spec fn to_lower(text: Seq<char>) -> Seq<char> {
    Seq::new(text.len(), |i: int| to_lower_char(text[i]))
}

/// Reads one hexadecimal digit given by its ASCII code.
pub fn hex_char_to_int(c: u8) -> (r: Option<u8>)
    ensures
        r == hex_value(c),
{
    match c {
        DIGIT_ZERO..=DIGIT_NINE => Some(c - DIGIT_ZERO),
        LOWER_A..=LOWER_F => Some(c - LOWER_A + 10),
        UPPER_A..=UPPER_F => Some(c - UPPER_A + 10),
        _ => None,
    }
}

/// The lowercase digit that writes `v`, as a string of one character.
pub(crate) fn hex_digit_str(v: u8) -> (r: &'static str)
    requires
        v < 16,
    ensures
        r@ == seq![hex_digit(v) as char],
{
    let digits = "0123456789abcdef";
    let at = v as usize;
    proof {
        reveal_strlit("0123456789abcdef");
    }
    let r = digits.substring_ascii(at, at + 1);
    assert(r@ =~= seq![hex_digit(v) as char]);
    r
}

/// A digit's value is below 16, and the lowercase digit of a value reads
/// back as that value.
pub proof fn lemma_hex_digit_value(v: u8)
    requires
        v < 16,
    ensures
        hex_value(hex_digit(v)) == Some(v),
        hex_char_value(hex_digit(v) as char) == Some(v),
        is_lower_hex_char(hex_digit(v) as char),
{
}

/// The hexadecimal digits are the characters that have a value, and each is
/// worth less than 16.
pub proof fn lemma_hex_chars(c: char)
    ensures
        is_hex_char(c) <==> hex_char_value(c) is Some,
        is_hex_char(c) ==> hex_char_value(c).unwrap() < 16,
        is_lower_hex_char(c) ==> is_hex_char(c),
{
}

/// A hexadecimal character is an ASCII character.
proof fn lemma_hex_char_ascii(c: char)
    requires
        is_hex_char(c),
    ensures
        '\0' <= c <= '\u{7f}',
{
}

/// Text is hexadecimal exactly when its UTF-8 bytes are the codes of
/// hexadecimal digits; then it has one byte per character, and each
/// character is worth what its byte is worth.
pub proof fn lemma_hex_text_bytes(text: Seq<char>)
    ensures
        is_hex_text(text) <==> is_hex_bytes(encode_utf8(text)),
        is_hex_text(text) ==> encode_utf8(text).len() == text.len(),
        is_hex_text(text) ==> forall|i: int|
            0 <= i < text.len() ==> hex_char_value(#[trigger] text[i]) == hex_value(
                encode_utf8(text)[i],
            ),
{
    let bytes = encode_utf8(text);
    lemma_ascii_bytes(text);
    if is_hex_text(text) {
        assert forall|i: int| 0 <= i < text.len() implies '\0' <= #[trigger] text[i]
            <= '\u{7f}' by {
            lemma_hex_char_ascii(text[i]);
        }
        assert forall|i: int| 0 <= i < bytes.len() implies hex_value(#[trigger] bytes[i])
            is Some by {
            assert(is_hex_char(text[i]));
        }
    }
    if is_hex_bytes(bytes) {
        assert forall|i: int| 0 <= i < bytes.len() implies #[trigger] bytes[i] < 0x80 by {
            assert(hex_value(bytes[i]) is Some);
        }
        assert forall|i: int| 0 <= i < text.len() implies is_hex_char(#[trigger] text[i]) by {
            assert(hex_value(bytes[i]) is Some);
        }
    }
}

/// Writing bytes as text and reading the text back gives the bytes again:
/// the text has two digits per byte, all of them hexadecimal.
pub proof fn lemma_decode_encode(bytes: Seq<u8>)
    ensures
        hex_encode(bytes).len() == 2 * bytes.len(),
        is_hex_text(hex_encode(bytes)),
        hex_decode(hex_encode(bytes)) == bytes,
        parse_hex(hex_encode(bytes), bytes.len()) == Some(bytes),
{
    let text = hex_encode(bytes);
    assert forall|i: int| 0 <= i < text.len() implies is_hex_char(#[trigger] text[i]) by {
        lemma_hex_digit_value(nibble_at(bytes, i));
    }
    assert forall|k: int| 0 <= k < bytes.len() implies #[trigger] hex_decode(text)[k]
        == bytes[k] by {
        lemma_hex_digit_value(nibble_at(bytes, 2 * k));
        lemma_hex_digit_value(nibble_at(bytes, 2 * k + 1));
    }
    assert(hex_decode(text) =~= bytes);
}

/// Canonical text holds no other characters than `0`-`9` and `a`-`f`.
pub proof fn lemma_encode_is_lowercase(bytes: Seq<u8>)
    ensures
        forall|i: int|
            0 <= i < hex_encode(bytes).len() ==> is_lower_hex_char(
                #[trigger] hex_encode(bytes)[i],
            ),
        to_lower(hex_encode(bytes)) == hex_encode(bytes),
{
    let text = hex_encode(bytes);
    assert forall|i: int| 0 <= i < text.len() implies is_lower_hex_char(#[trigger] text[i]) by {
        lemma_hex_digit_value(nibble_at(bytes, i));
    }
    assert(to_lower(text) =~= text);
}

/// A letter's case does not change what digit it is.
pub proof fn lemma_lower_char_value(c: char)
    ensures
        hex_char_value(to_lower_char(c)) == hex_char_value(c),
        is_hex_char(c) ==> is_lower_hex_char(to_lower_char(c)),
{
}

/// Reading does not depend on the case of the letters: a text is accepted
/// exactly when its lowercase form is, and both give the same bytes.
pub proof fn lemma_parse_ignores_case(text: Seq<char>, size: nat)
    ensures
        is_hex_text(text) <==> is_hex_text(to_lower(text)),
        parse_hex(text, size) == parse_hex(to_lower(text), size),
{
    let lower = to_lower(text);
    if is_hex_text(text) {
        assert forall|i: int| 0 <= i < lower.len() implies is_hex_char(#[trigger] lower[i]) by {
            lemma_lower_char_value(text[i]);
        }
    }
    if is_hex_text(lower) {
        assert forall|i: int| 0 <= i < text.len() implies is_hex_char(#[trigger] text[i]) by {
            lemma_lower_char_value(text[i]);
            assert(is_hex_char(lower[i]));
        }
    }
    assert forall|k: int| 0 <= k < text.len() / 2 implies #[trigger] hex_decode(text)[k]
        == hex_decode(lower)[k] by {
        lemma_lower_char_value(text[2 * k]);
        lemma_lower_char_value(text[2 * k + 1]);
    }
    assert(hex_decode(text) =~= hex_decode(lower));
}

/// Reading a text and writing the bytes again gives the text in lowercase.
pub proof fn lemma_encode_decode(text: Seq<char>)
    requires
        is_hex_text(text),
        text.len() % 2 == 0,
    ensures
        hex_encode(hex_decode(text)) == to_lower(text),
{
    let bytes = hex_decode(text);
    let again = hex_encode(bytes);
    assert forall|i: int| 0 <= i < text.len() implies #[trigger] again[i] == to_lower(text)[i] by {
        let k = i / 2;
        lemma_hex_chars(text[2 * k]);
        lemma_hex_chars(text[2 * k + 1]);
        lemma_lower_char_value(text[i]);
    }
    assert(again =~= to_lower(text));
}

} // verus!
