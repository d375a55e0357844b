//! The engine's only source of randomness: thin wrappers around the `rand`
//! crate.  Each wrapper draws from the thread-local generator; nothing is
//! promised about which value comes back beyond the stated range, so every
//! caller is verified for all possible outcomes.

use vstd::prelude::*;

use rand::Rng;

verus! {

/// Relies on rand::random::<bool>: draws a fresh boolean.
#[verifier::external_body]
pub(crate) fn random_bool() -> bool {
    rand::random::<bool>()
}

/// Relies on rand::random::<u8>: draws a fresh value over the full range.
#[verifier::external_body]
pub(crate) fn random_u8() -> u8 {
    rand::random::<u8>()
}

/// Relies on rand::random::<u16>: draws a fresh value over the full range.
#[verifier::external_body]
pub(crate) fn random_u16() -> u16 {
    rand::random::<u16>()
}

/// Relies on rand::Rng::gen_range over `min..max`: the result is uniform in
/// `[min, max)`; the call panics on an empty range, so `min < max` is
/// required.
#[verifier::external_body]
pub(crate) fn random_range_u8(min: u8, max: u8) -> (r: u8)
    requires
        min < max,
    ensures
        min <= r < max,
{
    rand::thread_rng().gen_range(min..max)
}

/// Relies on rand::Rng::gen_range over `min..max`: the result is uniform in
/// `[min, max)`; the call panics on an empty range, so `min < max` is
/// required.
#[verifier::external_body]
pub(crate) fn random_range_u16(min: u16, max: u16) -> (r: u16)
    requires
        min < max,
    ensures
        min <= r < max,
{
    rand::thread_rng().gen_range(min..max)
}

} // verus!
