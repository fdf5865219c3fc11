//! The one place the library draws randomness: the depth perturbation
//! given to a freshly placed item.

use vstd::prelude::*;

verus! {

/// Relies on rand's `Rng::gen_range` over the half-open range
/// `0..bound`: the sample is always strictly below `bound`, and the
/// range being non-empty rules out the empty-range panic.  Nothing more
/// is assumed of the draw.
#[verifier::external_body]
pub(crate) fn draw_below(bound: u32) -> (r: u32)
    requires
        bound > 0,
    ensures
        r < bound,
{
    rand::Rng::gen_range(&mut rand::thread_rng(), 0..bound)
}

} // verus!
