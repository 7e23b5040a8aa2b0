//! The machine's one source of chance.

use vstd::prelude::*;

verus! {

/// A byte from `rand::random`, which draws it from the thread-local
/// generator that the operating system seeded. Nothing is claimed of the
/// byte: callers must be right for each of the 256 values.
#[verifier::external_body]
pub(crate) fn random_byte() -> (byte: u8) {
    rand::random::<u8>()
}

} // verus!
