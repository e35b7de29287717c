//! Strings as their characters and as their UTF-8 bytes.
//!
//! The contracts of this crate speak of a string's characters; the code
//! reads its bytes. For ASCII text the two agree, one byte per character.

use vstd::prelude::*;
use vstd::string::*;
use vstd::utf8::*;

verus! {

/// True when every byte is below `0x80`.
pub open spec fn all_low_bytes(bytes: Seq<u8>) -> bool {
    forall|i: int| 0 <= i < bytes.len() ==> #[trigger] bytes[i] < 0x80
}

/// A character outside ASCII starts its encoding with a byte of `0x80` or more.
proof fn lemma_wide_leading_byte(scalar: u32)
    by (bit_vector)
    requires
        !has_width_1_encoding(scalar),
    ensures
        leading_byte_width_2(scalar) >= 0x80,
        leading_byte_width_3(scalar) >= 0x80,
        leading_byte_width_4(scalar) >= 0x80,
{
}

/// A character whose code is below `0x80` is an ASCII character.
proof fn lemma_low_code(c: char)
    requires
        has_width_1_encoding(c as u32),
    ensures
        '\0' <= c <= '\u{7f}',
{
}

/// Text is ASCII exactly when all of its UTF-8 bytes are below `0x80`; then
/// it has one byte per character, the character's code.
pub proof fn lemma_ascii_bytes(chars: Seq<char>)
    ensures
        is_ascii_chars(chars) <==> all_low_bytes(encode_utf8(chars)),
        is_ascii_chars(chars) ==> encode_utf8(chars).len() == chars.len(),
        is_ascii_chars(chars) ==> forall|i: int|
            0 <= i < chars.len() ==> #[trigger] encode_utf8(chars)[i] == chars[i] as u8,
    decreases chars.len(),
{
    let bytes = encode_utf8(chars);
    if is_ascii_chars(chars) {
        is_ascii_chars_encode_utf8(chars);
    }
    if all_low_bytes(bytes) && chars.len() > 0 {
        let first = chars[0] as u32;
        let rest = chars.drop_first();
        let head = encode_scalar(first);
        assert(bytes[0] == head[0]);
        if !has_width_1_encoding(first) {
            lemma_wide_leading_byte(first);
        }
        lemma_low_code(chars[0]);
        assert forall|i: int| 0 <= i < encode_utf8(rest).len() implies #[trigger] encode_utf8(
            rest,
        )[i] < 0x80 by {
            assert(encode_utf8(rest)[i] == bytes[i + 1]);
        }
        lemma_ascii_bytes(rest);
        assert forall|i: int| 0 <= i < chars.len() implies '\0' <= #[trigger] chars[i]
            <= '\u{7f}' by {
            if i > 0 {
                assert(chars[i] == rest[i - 1]);
            }
        }
    }
}

/// Whether two strings hold the same characters.
pub fn str_equals(a: &str, b: &str) -> (r: bool)
    ensures
        r == (a@ == b@),
{
    let x = a.as_bytes();
    let y = b.as_bytes();
    proof {
        encode_utf8_decode_utf8(a@);
        encode_utf8_decode_utf8(b@);
    }
    if x.len() != y.len() {
        return false;
    }
    let mut i: usize = 0;
    while i < x.len()
        invariant
            i <= x.len(),
            x.len() == y.len(),
            x@ == encode_utf8(a@),
            y@ == encode_utf8(b@),
            forall|j: int| 0 <= j < i ==> x[j] == y[j],
        decreases x.len() - i,
    {
        if x[i] != y[i] {
            return false;
        }
        i += 1;
    }
    assert(x@ =~= y@);
    true
}

} // verus!
