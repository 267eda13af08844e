//! Base58 text of byte strings, as computed by the `bs58` crate with its
//! default (Bitcoin) alphabet.
//!
//! Nothing in this module is proved: it states what the two calls into
//! `bs58` return, and the rest of the crate is verified against that.

use vstd::prelude::*;

verus! {

/// The error of `bs58::decode`, carried through without looking inside.
#[verifier::external_type_specification]
#[verifier::external_body]
pub struct ExBase58DecodeError(bs58::decode::Error);

/// The base58 text that `bs58::encode` produces for `bytes`.
pub uninterp spec fn base58_text(bytes: Seq<u8>) -> Seq<char>;

/// The bytes that `bs58::decode` produces for `text`, or `None` where it
/// rejects the text.
pub uninterp spec fn base58_bytes(text: Seq<char>) -> Option<Seq<u8>>;

/// Calls `bs58::encode(bytes).into_string()`.
///
/// Trusted: the result is a function of the bytes alone, named
/// `base58_text`. The call has no failure path: the crate sizes the
/// output buffer itself.
#[verifier::external_body]
pub(crate) fn encode_base58(bytes: &[u8]) -> (text: String)
    ensures
        text@ == base58_text(bytes@),
{
    bs58::encode(bytes).into_string()
}

/// Calls `bs58::decode(text).into_vec()`.
///
/// Trusted: whether the call succeeds, and the bytes it yields, are a
/// function of the text alone, named `base58_bytes`. The call fails on a
/// character outside the alphabet and never panics.
#[verifier::external_body]
pub(crate) fn decode_base58(text: &str) -> (decoded: Result<Vec<u8>, bs58::decode::Error>)
    ensures
        match decoded {
            Ok(bytes) => base58_bytes(text@) == Some(bytes@),
            Err(_) => base58_bytes(text@) is None,
        },
{
    bs58::decode(text).into_vec()
}

} // verus!
