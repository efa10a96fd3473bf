//! The one source of randomness the simulation uses: a uniform index draw.

use vstd::prelude::*;

verus! {

/// Relies on `rand::thread_rng` and `rand::Rng::gen_range`: a draw from the
/// half-open range `0..n` returns a value below `n`, and panics only when the
/// range is empty, which the precondition rules out. Nothing is assumed about
/// which value comes back.
#[verifier::external_body]
pub(crate) fn random_below(n: usize) -> (r: usize)
    requires
        n >= 1,
    ensures
        r < n,
{
    rand::Rng::gen_range(&mut rand::thread_rng(), 0..n)
}

} // verus!
