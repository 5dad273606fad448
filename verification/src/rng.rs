//! The single source of randomness: a uniform draw below a bound.

use vstd::prelude::*;
use rand::distributions::Distribution;

verus! {

/// Relies on rand: `Uniform::from(0..n)` (which panics only on an empty
/// range, excluded here by `requires`) together with
/// `Distribution::sample` on `thread_rng` draws a value uniformly from
/// `[0, n)`; `UniformInt::sample` returns `low + hi` with `hi` below the
/// range width, so the result is always below `n`.
#[verifier::external_body]
pub fn random_below(n: usize) -> (r: usize)
    requires
        1 <= n,
    ensures
        r < n,
{
    rand::distributions::Uniform::from(0..n).sample(&mut rand::thread_rng())
}

} // verus!
