//! Assorted helpers around the engine.

use vstd::prelude::*;

verus! {

/// A uniformly random value below `faces`.
///
/// Relies on rand::random_range over `0..faces`: the range must be nonempty
/// (the call panics on an empty range) and the drawn value lies within it.
#[verifier::external_body]
pub fn roll_dice(faces: u32) -> (r: u32)
    requires
        faces >= 1,
    ensures
        r < faces,
{
    rand::random_range(0..faces)
}

} // verus!
