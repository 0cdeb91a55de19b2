//! The random source.
//!
//! Sampling is driven by an explicit generator handle from the `rand` crate,
//! passed into every operation that draws, so a render with a fixed seed is
//! reproducible.  The contracts state only what holds of every draw: the
//! drawn value lies in the requested range.

use vstd::prelude::*;

verus! {

/// The standard random generator of the `rand` crate, so that a handle to it
/// can flow through the verified sampling code.
#[verifier::external_type_specification]
#[verifier::external_body]
pub struct ExStdRng(rand::rngs::StdRng);

/// Relies on rand::Rng::gen_range over `lo..hi`: the draw lies in the
/// half-open range.  The range must be non-empty, or the call would panic.
#[verifier::external_body]
pub(crate) fn rng_range(rng: &mut rand::rngs::StdRng, lo: i64, hi: i64) -> (r: i64)
    requires
        lo < hi,
    ensures
        lo <= r < hi,
{
    rand::Rng::gen_range(rng, lo..hi)
}

} // verus!
