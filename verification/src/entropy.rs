//! Random identifiers and secrets, drawn from the thread-local generator of
//! the `rand` crate.

use rand::Rng;
use vstd::prelude::*;

verus! {

/// Draws a room id.
///
/// Calls `rand::thread_rng()` and `Rng::gen::<i32>()`. Every `i32` can come
/// back, so nothing is claimed of the result.
#[verifier::external_body]
pub(crate) fn random_room_id() -> (id: i32) {
    rand::thread_rng().gen::<i32>()
}

/// Draws a connection id.
///
/// Calls `rand::thread_rng()` and `Rng::gen::<u32>()`. Every `u32` can come
/// back, so nothing is claimed of the result.
#[verifier::external_body]
pub(crate) fn random_conn_id() -> (id: u32) {
    rand::thread_rng().gen::<u32>()
}

/// Draws the 256 bits of a host token.
///
/// Calls `rand::thread_rng()` and `Rng::gen::<[u8; 32]>()`. The length is
/// fixed by the type; nothing is claimed of the bytes.
#[verifier::external_body]
pub(crate) fn random_token_bytes() -> (bytes: [u8; 32]) {
    rand::thread_rng().gen::<[u8; 32]>()
}

} // verus!
