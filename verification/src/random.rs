//! The source of random bytes.

use vstd::prelude::*;

verus! {

/// A byte from `rand::random::<u8>()`, which draws from the thread-local
/// generator of the `rand` crate.
///
/// Trusted, not proved. Nothing is claimed of the byte: it may be any value,
/// and two calls need not return the same one.
#[verifier::external_body]
pub(crate) fn random_byte() -> (byte: u8) {
    rand::random::<u8>()
}

} // verus!
