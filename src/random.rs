//! The source of chance: the thread-local generator of the `rand` crate.

use vstd::prelude::*;

verus! {

/// Relies on `rand::random::<usize>()`, which draws a value from the
/// thread-local generator; nothing is known of the value.
#[verifier::external_body]
pub(crate) fn random_usize() -> usize {
    rand::random::<usize>()
}

} // verus!
