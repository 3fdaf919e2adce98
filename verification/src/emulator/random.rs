//! The source of random bytes.
use vstd::prelude::*;

verus! {

/// A byte from `rand::thread_rng()`, drawn with `Rng::gen::<u8>()`. The
/// generator is seeded by the system, so nothing is claimed of the value:
/// two calls may differ, and any byte may come.
#[verifier::external_body]
pub(crate) fn random_byte() -> u8 {
    rand::Rng::gen::<u8>(&mut rand::thread_rng())
}

} // verus!
