//! The one random draw the game makes: an index into the list of free cells.

use vstd::prelude::*;

verus! {

/// Relies on `rand::thread_rng` and `rand::Rng::gen_range`: sampling from
/// the half-open range `0..n` yields a value below `n`, and the range is
/// nonempty, so the call does not panic.
#[verifier::external_body]
pub(crate) fn random_index(n: usize) -> (r: usize)
    requires
        1 <= n,
    ensures
        r < n,
{
    rand::Rng::gen_range(&mut rand::thread_rng(), 0..n)
}

} // verus!
