use vstd::prelude::*;

verus! {

/// Relies on `rand::random_range` over `0..bound`: a draw from the
/// thread-local cryptographically secure generator, strictly below `bound`.
/// The panic on an empty range is excluded by the precondition; nothing more
/// than the bound can be promised of a random value.
#[verifier::external_body]
pub(crate) fn random_below(bound: u64) -> (r: u64)
    requires
        1 <= bound,
    ensures
        r < bound,
{
    rand::random_range(0..bound)
}

} // verus!
