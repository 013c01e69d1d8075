//! From escape time to grayscale intensity.

use vstd::prelude::*;

verus! {

/// The intensity of a pixel whose point has the escape result `escape`.
///
/// A point that did not escape is black. A point that escaped at iteration
/// `i` has intensity `255 - i`, so the faster it escapes the brighter it is.
/// Iteration indices are taken modulo 256, which changes nothing for an
/// iteration budget of at most 256.
pub open spec fn shade_of(escape: Option<u32>) -> u8 {
    match escape {
        None => 0u8,
        Some(i) => (255 - i % 256) as u8,
    }
}

/// Computes [`shade_of`].
pub fn shade(escape: Option<u32>) -> (intensity: u8)
    ensures
        intensity == shade_of(escape),
        escape matches Some(i) ==> i < 256 ==> intensity == 255 - i,
{
    match escape {
        None => 0,
        Some(count) => 255 - ((count % 256) as u8),
    }
}

/// Within a budget of 255 iterations an escaped point is never black: only a
/// point that did not escape has intensity 0, and distinct escape results
/// have distinct intensities.
pub proof fn shade_is_injective_within_budget(a: Option<u32>, b: Option<u32>)
    requires
        a matches Some(i) ==> i < 255,
        b matches Some(i) ==> i < 255,
    ensures
        shade_of(a) == 0 <==> a is None,
        shade_of(a) == shade_of(b) <==> a == b,
{
}

} // verus!
