//! The MD5 function itself. This crate does not define it: it calls the
//! `md-5` crate and gives the result a name.

use ::md5::Digest;
use vstd::prelude::*;

verus! {

/// The digest that MD5 gives to `content`.
///
/// Nothing is stated of this function but that `md5_digest` computes it, so
/// all that can be concluded is that equal content has equal digests.
pub uninterp spec fn md5_of(content: Seq<u8>) -> Seq<u8>;

/// Computes the MD5 digest of `content` by one call of `Digest::digest` on
/// the `Md5` hasher of the `md-5` crate: a fresh hasher is fed `content` and
/// finalized, and its 16 bytes of output are moved into an array.
///
/// Trusted, not proved: the bytes returned depend on the bytes of `content`
/// alone, and they are what `md5_of` names.
#[verifier::external_body]
pub(crate) fn md5_digest(content: &[u8]) -> (out: [u8; 16])
    ensures
        out@ == md5_of(content@),
{
    ::md5::Md5::digest(content).into()
}

} // verus!
