//! The one source of chance of the library: the nonces that mining tries.

use vstd::prelude::*;

verus! {

/// Draws a 64-bit value from `rand::random`, which asks the generator of
/// the current thread (`rand::thread_rng`) for it. Nothing is claimed of the
/// value drawn: every `u64` may come back, and two draws need not agree. The
/// call takes no argument; it panics only where the generator cannot be
/// seeded from the operating system when the thread first uses it.
#[verifier::external_body]
pub(crate) fn fresh_nonce() -> u64 {
    rand::random::<u64>()
}

} // verus!
