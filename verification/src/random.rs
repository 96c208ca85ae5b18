//! Random aim jitter.

use vstd::prelude::*;

verus! {

/// Relies on `rand::random_range`: a sample from `-max..=max` lies in that
/// range. Nothing else is assumed of the value: every caller must be correct
/// for any outcome.
#[verifier::external_body]
pub fn random_jitter(max: i64) -> (r: i64)
    requires
        0 <= max,
    ensures
        -max <= r <= max,
{
    rand::random_range(-max..=max)
}

} // verus!
