//! Drawing numbers.

use rand::Rng;
use vstd::prelude::*;

verus! {

/// Trusted: `rand::thread_rng().gen_range(low..=high)`, which draws from the
/// inclusive range and panics on an empty one. The generator is seeded by
/// the system, so only the range is stated.
#[verifier::external_body]
pub(crate) fn random_between(low: u32, high: u32) -> (drawn: u32)
    requires
        low <= high,
    ensures
        low <= drawn <= high,
{
    rand::thread_rng().gen_range(low..=high)
}

} // verus!
