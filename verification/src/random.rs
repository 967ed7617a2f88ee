//! The machine's source of random bytes.

use vstd::prelude::*;

verus! {

/// A byte from `rand::random`, which samples the thread's generator
/// uniformly over all of `u8`. Nothing is known of the value beforehand, so
/// nothing is claimed of it: callers are proved for every byte.
#[verifier::external_body]
pub(crate) fn random_byte() -> (byte: u8) {
    rand::random::<u8>()
}

} // verus!
