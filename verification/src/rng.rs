//! Trusted boundary to the `rand` crate: the only source of
//! randomness in the library.  Level generation is verified for every
//! outcome these functions can return.

use vstd::prelude::*;

verus! {

#[verifier::external_type_specification]
#[verifier::external_body]
pub struct ExThreadRng(rand::rngs::ThreadRng);

/// Relies on `rand::thread_rng`: a handle to the thread-local
/// generator.  Nothing is assumed about the values it will produce.
#[verifier::external_body]
pub(crate) fn fresh_rng() -> rand::rngs::ThreadRng {
    rand::thread_rng()
}

/// Relies on `rand::Rng::gen_range` over `lo..hi`: it panics on an
/// empty range and otherwise returns a value of that range.  Which
/// value comes back is not assumed.
#[verifier::external_body]
pub(crate) fn rng_range(rng: &mut rand::rngs::ThreadRng, lo: i32, hi: i32) -> (r: i32)
    requires
        lo < hi,
    ensures
        lo <= r < hi,
{
    rand::Rng::gen_range(rng, lo..hi)
}

} // verus!
