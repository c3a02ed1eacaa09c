//! The source of random bytes.

use rand::Rng;
use vstd::prelude::*;

verus! {

/// Draws one byte from `rand::thread_rng()` with `rand::Rng::gen`, which
/// samples all 256 values uniformly. Nothing is claimed of the byte drawn:
/// two calls may differ. The outside crate panics in three places, none of
/// which an argument could steer clear of: where the operating system gives
/// no seed the first time a thread uses the generator, where it gives none
/// when the generator reseeds itself after its quota of output or after a
/// fork, and where the handler that watches for forks cannot be registered.
#[verifier::external_body]
pub(crate) fn random_byte() -> (byte: u8) {
    let mut rng = rand::thread_rng();
    rng.gen()
}

} // verus!
