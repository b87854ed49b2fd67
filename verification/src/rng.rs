//! The one place the interpreter touches the outside world: the random
//! byte that the `CXNN` instruction consumes.

use vstd::prelude::*;

use rand::Rng;

verus! {

/// Relies on `rand::thread_rng` and `Rng::gen_range` to produce a byte.
/// Nothing is assumed about the value: every caller is verified for every
/// possible outcome.
#[verifier::external_body]
pub(crate) fn random_byte() -> u8 {
    rand::thread_rng().gen_range(0..=255)
}

} // verus!
