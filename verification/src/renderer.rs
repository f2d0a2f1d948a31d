//! The integrator's termination rule.
//!
//! The recursive radiance estimator itself works on floating-point
//! radiance values and runs in the front end; the rule that bounds its
//! recursion — scatter only while the depth is under the fixed cap, else
//! return the emitted term alone — is decided here, so every recursive
//! call site consults a verified decision.

use vstd::prelude::*;

verus! {

/// How many scatter bounces a single path may take.
pub const MAX_SCATTER_DEPTH: u64 = 50;

/// Whether a path at the given depth may scatter once more; false from
/// depth 50 on, so the estimator recurses at most 50 times.
pub fn should_scatter(depth: u64) -> (r: bool)
    ensures
        r == (depth < MAX_SCATTER_DEPTH),
{
    depth < MAX_SCATTER_DEPTH
}

} // verus!
