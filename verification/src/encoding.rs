//! Unpadded standard base64, as the `base64` crate computes it.

use base64::Engine;
use vstd::prelude::*;

verus! {

/// The error of the `base64` crate's decoder, carried through unread.
#[verifier::external_type_specification]
#[verifier::external_body]
pub struct ExDecodeError(base64::DecodeError);

/// The text that `STANDARD_NO_PAD.encode` gives for `bytes`.
pub uninterp spec fn base64_text(bytes: Seq<u8>) -> Seq<char>;

/// The bytes that `STANDARD_NO_PAD.decode` gives for `text`, or `None` where
/// it rejects `text`.
pub uninterp spec fn base64_bytes(text: Seq<char>) -> Option<Seq<u8>>;

/// Calls `base64::Engine::encode` on the engine `STANDARD_NO_PAD`.
///
/// Trusted: the result is the encoder's text for `bytes`, and the decoder of
/// the same engine takes that text back to `bytes`. The length bound keeps the
/// size of the text, four characters for three bytes, within what the encoder
/// can compute and allocate; beyond that it panics.
#[verifier::external_body]
pub(crate) fn encode(bytes: &[u8]) -> (text: String)
    requires
        bytes@.len() <= usize::MAX / 4,
    ensures
        text@ == base64_text(bytes@),
        base64_bytes(text@) == Some(bytes@),
{
    base64::engine::general_purpose::STANDARD_NO_PAD.encode(bytes)
}

/// Calls `base64::Engine::decode` on the engine `STANDARD_NO_PAD`.
///
/// Trusted: the result is `Ok` with the decoder's bytes where the decoder
/// accepts `text`, and its error where it does not.
#[verifier::external_body]
pub(crate) fn decode(text: &str) -> (r: Result<Vec<u8>, base64::DecodeError>)
    ensures
        match r {
            Ok(bytes) => base64_bytes(text@) == Some(bytes@),
            Err(_) => base64_bytes(text@) is None,
        },
{
    base64::engine::general_purpose::STANDARD_NO_PAD.decode(text)
}

} // verus!
