//! Random selection, through the rand crate.

use vstd::prelude::*;

verus! {

/// Relies on rand's `Rng::gen_range` over `0..len`, called on the
/// thread-local generator: it returns a uniformly distributed value of the
/// non-empty range, so strictly below `len`. It panics only on an empty
/// range, which the precondition rules out; nothing else is promised of a
/// random draw.
#[verifier::external_body]
pub(crate) fn random_below(len: usize) -> (r: usize)
    requires
        0 < len,
    ensures
        r < len,
{
    rand::Rng::gen_range(&mut rand::thread_rng(), 0..len)
}

} // verus!
