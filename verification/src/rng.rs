use vstd::prelude::*;
use rand::Rng;

verus! {

/// rand's standard seedable generator, declared so that one explicitly
/// owned instance can thread through the placement calls; the library
/// treats its state as opaque.
#[verifier::external_type_specification]
#[verifier::external_body]
pub struct ExStdRng(rand::rngs::StdRng);

/// Relies on rand's `Rng::gen_range` over a half-open `usize` range: it
/// returns a value of the range and panics only on an empty range, which
/// the precondition rules out.  Nothing more is assumed of the draw.
#[verifier::external_body]
pub(crate) fn gen_range_usize(rng: &mut rand::rngs::StdRng, lo: usize, hi: usize) -> (r: usize)
    requires
        lo < hi,
    ensures
        lo <= r < hi,
{
    rng.gen_range(lo..hi)
}

/// Relies on rand's `Rng::gen_range` over an inclusive `i64` range: it
/// returns a value of the range and panics only on an empty range, which
/// the precondition rules out.  Nothing more is assumed of the draw.
#[verifier::external_body]
pub(crate) fn gen_range_i64(rng: &mut rand::rngs::StdRng, lo: i64, hi: i64) -> (r: i64)
    requires
        lo <= hi,
    ensures
        lo <= r <= hi,
{
    rng.gen_range(lo..=hi)
}

} // verus!
