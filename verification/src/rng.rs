//! Randomness for salts and nonces.

use vstd::prelude::*;

use rand::RngCore;

verus! {

/// Relies on `rand::thread_rng` and `rand_core::RngCore::fill_bytes`: fills
/// the whole vector with bytes from a cryptographically secure random source.
/// Nothing is promised of the values; callers state what holds of every
/// outcome.
#[verifier::external_body]
pub(crate) fn fill_random(buf: &mut Vec<u8>)
    ensures
        final(buf)@.len() == old(buf)@.len(),
{
    rand::thread_rng().fill_bytes(buf.as_mut_slice());
}

} // verus!
