//! HMAC-SHA256, as the `hmac` and `sha2` crates compute it.
//!
//! A [`MacState`] is a computation in progress: it was started with a key and
//! has taken in a message piece by piece. What it was given is named by
//! [`mac_key`] and [`mac_message`]; the tag it ends in is named by
//! [`hmac_sha256`].

use hmac::Mac;
use vstd::prelude::*;

verus! {

/// The length in bytes of an HMAC-SHA256 tag.
pub const TAG_LEN: usize = 32;

/// An HMAC-SHA256 computation in progress: an `Hmac<Sha256>` of the `hmac`
/// crate. What is inside is never read here; contracts speak of it through
/// [`mac_key`] and [`mac_message`].
#[verifier::external_body]
pub struct MacState {
    inner: hmac::Hmac<sha2::Sha256>,
}

/// The error with which `hmac` refuses a key, carried through unread.
#[verifier::external_type_specification]
#[verifier::external_body]
pub struct ExInvalidLength(hmac::digest::InvalidLength);

/// The key that the computation was started with.
pub uninterp spec fn mac_key(state: MacState) -> Seq<u8>;

/// The bytes that the computation has taken in so far, in order.
pub uninterp spec fn mac_message(state: MacState) -> Seq<u8>;

/// The tag that `Mac::finalize` gives for a computation started with `key`
/// that has taken in `message`.
pub uninterp spec fn hmac_sha256(key: Seq<u8>, message: Seq<u8>) -> Seq<u8>;

/// Calls `Mac::new_from_slice` of `Hmac<Sha256>`.
///
/// Trusted: HMAC takes a key of any length, and the call ends in `Ok` on
/// every path; the new computation holds `key` and an empty message.
#[verifier::external_body]
pub(crate) fn start(key: &[u8]) -> (r: Result<MacState, hmac::digest::InvalidLength>)
    ensures
        r is Ok,
        r matches Ok(state) ==> mac_key(state) == key@,
        r matches Ok(state) ==> mac_message(state) == Seq::<u8>::empty(),
{
    hmac::Hmac::<sha2::Sha256>::new_from_slice(key).map(|inner| MacState { inner })
}

/// Calls `Mac::update`.
///
/// Trusted: the key stays, and `data` is appended to the message.
#[verifier::external_body]
pub(crate) fn update(state: &mut MacState, data: &[u8])
    ensures
        mac_key(*final(state)) == mac_key(*old(state)),
        mac_message(*final(state)) == mac_message(*old(state)) + data@,
{
    state.inner.update(data)
}

/// Calls `Mac::finalize` and copies the tag out of its constant-time cover.
///
/// Trusted: the result is the tag of the key and the message, 32 bytes long.
#[verifier::external_body]
pub(crate) fn finalize(state: MacState) -> (tag: Vec<u8>)
    ensures
        tag@ == hmac_sha256(mac_key(state), mac_message(state)),
        tag@.len() == TAG_LEN,
{
    state.inner.finalize().into_bytes().to_vec()
}

/// Calls `Mac::verify_slice`, which compares in constant time.
///
/// Trusted: the result is `true` exactly where `tag` is the tag of the key and
/// the message. A `tag` of another length than 32 is never that tag.
#[verifier::external_body]
pub(crate) fn verify_slice(state: MacState, tag: &[u8]) -> (ok: bool)
    ensures
        ok == (tag@ == hmac_sha256(mac_key(state), mac_message(state))),
{
    state.inner.verify_slice(tag).is_ok()
}

} // verus!
