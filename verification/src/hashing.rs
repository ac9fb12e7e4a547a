//! The content fingerprint of a block: SHA-256 over the block's canonical
//! form, which is the JSON object of its two fields.

use serde_json::Error as JsonError;
use sha2::Digest;
use vstd::prelude::*;
use vstd::string::*;

verus! {

/// The error of `serde_json`'s serializer, carried through unread.
#[verifier::external_type_specification]
#[verifier::external_body]
pub struct ExJsonError(JsonError);

/// The 32-byte hash that `Sha256::digest` gives for `data`.
pub uninterp spec fn sha256(data: Seq<u8>) -> Seq<u8>;

/// The JSON string literal, quotes included, that `serde_json::to_string`
/// gives for `text`, or `None` where it fails.
pub uninterp spec fn json_string(text: Seq<char>) -> Option<Seq<char>>;

/// Calls `Digest::digest` of `Sha256`.
///
/// Trusted: the result is the hash of `data`, 32 bytes long.
#[verifier::external_body]
pub(crate) fn sha256_of(data: &[u8]) -> (hash: Vec<u8>)
    ensures
        hash@ == sha256(data@),
        hash@.len() == 32,
{
    sha2::Sha256::digest(data).to_vec()
}

/// Calls `serde_json::to_string` on a string slice.
///
/// Trusted: the result is `Ok` with the serializer's text where it succeeds,
/// and its error where it does not.
#[verifier::external_body]
pub(crate) fn to_json_string(text: &str) -> (r: Result<String, JsonError>)
    ensures
        match r {
            Ok(json) => json_string(text@) == Some(json@),
            Err(_) => json_string(text@) is None,
        },
{
    serde_json::to_string(text)
}

/// The canonical form of a block whose fields, as JSON string literals, are
/// `data_json` and `signature_json`: the compact JSON object with the members
/// `data` and `signature`, in this order.
pub open spec fn canonical_text(data_json: Seq<char>, signature_json: Seq<char>) -> Seq<char> {
    "{\"data\":"@ + data_json + ",\"signature\":"@ + signature_json + "}"@
}

/// Builds the canonical form of a block from its two fields, each already
/// written as a JSON string literal.
pub fn canonical_form(data_json: &str, signature_json: &str) -> (text: String)
    ensures
        text@ == canonical_text(data_json@, signature_json@),
{
    let mut text = String::from_str("{\"data\":");
    text.append(data_json);
    text.append(",\"signature\":");
    text.append(signature_json);
    text.append("}");
    text
}

} // verus!
