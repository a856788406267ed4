//! The source of randomness for the `Cxkk` instruction.

use vstd::prelude::*;

verus! {

/// Relies on rand::random: one byte drawn uniformly from 0..=255.  Nothing
/// is assumed of the value; every caller must hold for every outcome.
#[verifier::external_body]
pub(crate) fn random_byte() -> u8 {
    rand::random()
}

} // verus!
