//! The one source of chance that the breeding center draws from.

use vstd::prelude::*;

verus! {

/// Draws a boolean from `rand::random`, which samples the thread-local
/// generator: `true` and `false` each come with probability one half.
/// Nothing is claimed of the value drawn, so callers are verified for both.
/// The generator seeds itself from the operating system on first use, and
/// panics if that source fails.
#[verifier::external_body]
pub(crate) fn random_bool() -> (coin: bool) {
    rand::random::<bool>()
}

} // verus!
