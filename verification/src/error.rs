//! The errors of the library.

use serde_json::Error as JsonError;
use vstd::prelude::*;

verus! {

/// Why an operation of the library failed.
#[derive(Debug)]
pub enum Error {
    /// A signature is not unpadded standard base64.
    Base64(base64::DecodeError),
    /// The authentication primitive rejected the key or the tag.
    Hmac(String),
    /// The secret key is empty.
    InvalidSecretKey,
    /// A block could not be put into its canonical form.
    Serialization(JsonError),
    /// No block of a chain can be trusted.
    Unrecoverable,
}

} // verus!
