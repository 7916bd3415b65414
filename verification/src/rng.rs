//! The source of randomness used by the `CXNN` instruction.
use vstd::prelude::*;

verus! {

/// Draws one byte from `rand::random::<u8>()` (the thread-local generator).
///
/// Nothing is promised of the value beyond its type: any byte may come back,
/// and two calls may return different bytes.
#[verifier::external_body]
pub(crate) fn random_byte() -> (r: u8) {
    rand::random::<u8>()
}

} // verus!
