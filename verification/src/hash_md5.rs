//! The 128-bit MD5 digest as a `HashValue`.

use crate::hash_def::HashValue;
use crate::hex::{
    hex_char_to_int, hex_decode, hex_digit, hex_digit_str, hex_encode, hex_value, is_hex_bytes,
    is_hex_text, lemma_encode_is_lowercase, lemma_hex_text_bytes, nibble_at,
};
use crate::primitive::{md5_digest, md5_of};
use crate::text::str_equals;
use vstd::prelude::*;
use vstd::string::*;
use vstd::utf8::*;

verus! {

/// The number of bytes in an MD5 digest.
pub const MD5_SIZE: usize = 16;

/// An MD5 digest: exactly 16 raw bytes.
#[derive(Debug, Hash)]
pub struct HashMD5([u8; MD5_SIZE]);

impl View for HashMD5 {
    type V = Seq<u8>;

    closed spec fn view(&self) -> Seq<u8> {
        self.0@
    }
}

impl HashMD5 {
    /// The digest that holds `bytes`.
    pub fn from_bytes(bytes: [u8; MD5_SIZE]) -> (r: Self)
        ensures
            r@ == bytes@,
    {
        HashMD5(bytes)
    }

    /// The 16 bytes of the digest.
    pub fn as_bytes(&self) -> (r: &[u8; MD5_SIZE])
        ensures
            r@ == self@,
    {
        &self.0
    }
}

impl Clone for HashMD5 {
    fn clone(&self) -> (r: Self)
        ensures
            r == *self,
    {
        HashMD5(self.0)
    }
}

impl PartialEq for HashMD5 {
    fn eq(&self, other: &Self) -> (r: bool) {
        self.equals(other)
    }
}

impl Eq for HashMD5 {}

impl vstd::std_specs::cmp::PartialEqSpecImpl for HashMD5 {
    open spec fn obeys_eq_spec() -> bool {
        true
    }

    open spec fn eq_spec(&self, other: &Self) -> bool {
        self@ == other@
    }
}

impl HashValue for HashMD5 {
    open spec fn digest_size() -> nat {
        MD5_SIZE as nat
    }

    open spec fn signature() -> Seq<char> {
        seq!['m', 'd', '5']
    }

    open spec fn digest_of(content: Seq<u8>) -> Seq<u8> {
        md5_of(content)
    }

    proof fn lemma_size(&self) {
    }

    proof fn lemma_same_bytes(&self, other: &Self) {
        assert(self.0 =~= other.0);
    }

    fn new_hash_bytes(content: &[u8]) -> (r: Self) {
        HashMD5::from_bytes(md5_digest(content))
    }

    fn new_from_string(input: &str) -> (r: Option<Self>) {
        let codes = input.as_bytes();
        proof {
            lemma_hex_text_bytes(input@);
        }
        if codes.len() != 2 * MD5_SIZE {
            return None;
        }
        let mut bytes = [0u8; MD5_SIZE];
        let mut i: usize = 0;
        while i < MD5_SIZE
            invariant
                i <= MD5_SIZE,
                codes@ == encode_utf8(input@),
                codes@.len() == 2 * MD5_SIZE,
                is_hex_text(input@) <==> is_hex_bytes(codes@),
                is_hex_bytes(codes@.take(2 * i)),
                forall|k: int|
                    0 <= k < i ==> #[trigger] bytes[k] == hex_value(codes[2 * k]).unwrap() * 16
                        + hex_value(codes[2 * k + 1]).unwrap(),
            decreases MD5_SIZE - i,
        {
            let high = match hex_char_to_int(codes[2 * i]) {
                Some(v) => v,
                None => return None,
            };
            let low = match hex_char_to_int(codes[2 * i + 1]) {
                Some(v) => v,
                None => return None,
            };
            assert((high << 4) | low == high * 16 + low) by (bit_vector)
                requires
                    high < 16,
                    low < 16,
            ;
            bytes[i] = (high << 4) | low;
            i += 1;
        }
        proof {
            assert(codes@.take(2 * MD5_SIZE) =~= codes@);
            assert(bytes@ =~= hex_decode(input@));
        }
        Some(HashMD5(bytes))
    }

    fn equals(&self, other: &Self) -> (r: bool) {
        let mut i: usize = 0;
        while i < MD5_SIZE
            invariant
                i <= MD5_SIZE,
                forall|k: int| 0 <= k < i ==> self.0[k] == other.0[k],
            decreases MD5_SIZE - i,
        {
            if self.0[i] != other.0[i] {
                return false;
            }
            i += 1;
        }
        assert(self.0@ =~= other.0@);
        true
    }

    fn to_string(&self) -> (r: String) {
        let mut out = String::new();
        let mut i: usize = 0;
        while i < MD5_SIZE
            invariant
                i <= MD5_SIZE,
                out@.len() == 2 * i,
                forall|j: int|
                    0 <= j < 2 * i ==> out@[j] == hex_digit(nibble_at(self@, j)) as char,
            decreases MD5_SIZE - i,
        {
            let byte = self.0[i];
            out.append(hex_digit_str(byte / 16));
            out.append(hex_digit_str(byte % 16));
            i += 1;
        }
        proof {
            assert(out@ =~= hex_encode(self@));
            lemma_encode_is_lowercase(self@);
        }
        out
    }

    fn parse_hash_type_string(input: &str) -> (r: bool) {
        str_equals(input, Self::signature_to_string())
    }

    fn signature_to_string() -> (r: &'static str) {
        proof {
            reveal_strlit("md5");
        }
        assert("md5"@ =~= seq!['m', 'd', '5']);
        "md5"
    }
}

} // verus!
