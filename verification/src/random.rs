//! The source of the random byte that `CXNN` masks.

use rand::RngExt;
use vstd::prelude::*;

verus! {

/// Draws one byte with `rand::rng().random::<u8>()` (the thread-local
/// generator of the `rand` crate; its `u8` sample is the low byte of
/// `next_u32`). Any byte may come back, so nothing is stated about it.
/// `rand::rng()` panics if the operating system's entropy source fails
/// while the generator is first seeded; that is not excluded here.
#[verifier::external_body]
pub(crate) fn random_byte() -> u8 {
    rand::rng().random::<u8>()
}

} // verus!
