//! The source of random bytes for the `CXNN` instruction.

use vstd::prelude::*;

verus! {

/// Calls `rand::random::<u8>()`, which draws a byte from the thread-local
/// generator of the `rand` crate. Nothing is claimed of the byte: it may be
/// any value, and two calls may differ.
#[verifier::external_body]
pub(crate) fn random_byte() -> (b: u8) {
    rand::random::<u8>()
}

} // verus!
