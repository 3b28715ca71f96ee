//! Random numbers for jitter and random delays, from the `rand` crate.

use vstd::prelude::*;

verus! {

/// The `rand` crate's thread-local generator.
#[verifier::external_type_specification]
#[verifier::external_body]
pub struct ExThreadRng(rand::rngs::ThreadRng);

/// The thread-local random generator.
///
/// Trusted: calls `rand::thread_rng`, which hands out a handle to a lazily
/// seeded generator of the current thread; nothing is claimed of it.
#[verifier::external_body]
pub(crate) fn thread_rng() -> rand::rngs::ThreadRng {
    rand::thread_rng()
}

/// A random integer in `lo..=hi`.
///
/// Trusted: calls `rand::Rng::gen_range` with the inclusive range
/// `lo..=hi`; its documentation promises a value in the range and says it
/// panics on an empty range, which `requires` rules out. Which value comes
/// out is left open.
#[verifier::external_body]
pub(crate) fn gen_between(rng: &mut rand::rngs::ThreadRng, lo: i64, hi: i64) -> (r: i64)
    requires
        lo <= hi,
    ensures
        lo <= r <= hi,
{
    rand::Rng::gen_range(rng, lo..=hi)
}

/// A random integer in `lo..=hi`, from the thread-local generator.
pub fn random_between(lo: i64, hi: i64) -> (r: i64)
    requires
        lo <= hi,
    ensures
        lo <= r <= hi,
{
    let mut rng = thread_rng();
    gen_between(&mut rng, lo, hi)
}

} // verus!
