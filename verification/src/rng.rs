//! Random draws through an explicit seeded generator.
//!
//! The pipeline threads a `rand::rngs::StdRng` through every component
//! that draws, so a caller who seeds it reproduces a whole run.

use vstd::prelude::*;

verus! {

/// `rand::rngs::StdRng` is opaque here; the library only carries it
/// through to the draw below.
#[verifier::external_type_specification]
#[verifier::external_body]
pub struct ExStdRng(rand::rngs::StdRng);

/// Relies on `rand::Rng::gen_range(lo..hi)`: a uniform draw from the
/// half-open range `[lo, hi)`; the range is nonempty, so the call cannot
/// panic. Nothing more is claimed of the value: every caller handles
/// every outcome in the range.
#[verifier::external_body]
pub(crate) fn draw_range(rng: &mut rand::rngs::StdRng, lo: i64, hi: i64) -> (r: i64)
    requires
        lo < hi,
    ensures
        lo <= r < hi,
{
    rand::Rng::gen_range(rng, lo..hi)
}

} // verus!
