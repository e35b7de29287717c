//! What every digest algorithm of this crate offers.

use crate::hex::{hex_encode, is_hex_text, is_lower_hex_char, lemma_decode_encode, parse_hex};
use vstd::prelude::*;

verus! {

/// A digest value of some algorithm: a fixed number of raw bytes, which are
/// its view. Values are made from content or read from text, compared byte
/// by byte, and written as canonical text.
pub trait HashValue: Sized + View<V = Seq<u8>> {
    /// The number of bytes in every digest of this algorithm.
    spec fn digest_size() -> nat;

    /// The name token of this algorithm.
    spec fn signature() -> Seq<char>;

    /// The digest that this algorithm gives to `content`.
    spec fn digest_of(content: Seq<u8>) -> Seq<u8>;

    /// Every value holds exactly `digest_size()` bytes.
    proof fn lemma_size(&self)
        ensures
            self@.len() == Self::digest_size(),
    ;

    /// A value is nothing more than its bytes.
    proof fn lemma_same_bytes(&self, other: &Self)
        requires
            self@ == other@,
        ensures
            *self == *other,
    ;

    /// The digest of `content`.
    fn new_hash_bytes(content: &[u8]) -> (r: Self)
        ensures
            r@ == Self::digest_of(content@),
    ;

    /// Reads a digest from text: two hexadecimal digits of either case for
    /// each byte, and nothing else. Any other text gives `None`.
    fn new_from_string(input: &str) -> (r: Option<Self>)
        ensures
            match r {
                Some(value) => parse_hex(input@, Self::digest_size()) == Some(value@),
                None => parse_hex(input@, Self::digest_size()) is None,
            },
            input@.len() != 2 * Self::digest_size() ==> r is None,
            !is_hex_text(input@) ==> r is None,
    ;

    /// Whether both values hold the same bytes.
    fn equals(&self, other: &Self) -> (r: bool)
        ensures
            r == (self@ == other@),
    ;

    /// The canonical text of the value: lowercase, two digits per byte.
    fn to_string(&self) -> (r: String)
        ensures
            r@ == hex_encode(self@),
            r@.len() == 2 * Self::digest_size(),
            forall|i: int| 0 <= i < r@.len() ==> is_lower_hex_char(#[trigger] r@[i]),
    ;

    /// Whether `input` is exactly this algorithm's name token.
    fn parse_hash_type_string(input: &str) -> (r: bool)
        ensures
            r == (input@ == Self::signature()),
    ;

    /// This algorithm's name token.
    fn signature_to_string() -> (r: &'static str)
        ensures
            r@ == Self::signature(),
    ;
}

/// Writing a digest as text and reading that text gives the digest back.
pub proof fn lemma_text_round_trip<H: HashValue>(value: H)
    ensures
        hex_encode(value@).len() == 2 * H::digest_size(),
        parse_hex(hex_encode(value@), H::digest_size()) == Some(value@),
{
    value.lemma_size();
    lemma_decode_encode(value@);
}

/// Two digests computed from the same content are equal, whenever and
/// wherever each was computed.
pub proof fn lemma_same_content_same_digest<H: HashValue>(content: Seq<u8>, first: H, second: H)
    requires
        first@ == H::digest_of(content),
        second@ == H::digest_of(content),
    ensures
        first == second,
{
    first.lemma_same_bytes(&second);
}

/// Two digests are equal exactly when they hold the same bytes.
pub proof fn lemma_equal_iff_same_bytes<H: HashValue>(a: H, b: H)
    ensures
        a == b <==> a@ == b@,
{
    if a@ == b@ {
        a.lemma_same_bytes(&b);
    }
}

} // verus!
