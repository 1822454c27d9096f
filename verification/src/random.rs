//! Random choices.

use vstd::prelude::*;
use rand::Rng;

verus! {

/// A random index below `n`.
///
/// Trusted: calls `rand::Rng::gen_range(0..n)` on `rand::thread_rng()`,
/// which returns a value of the half-open range and panics only when the
/// range is empty; `requires` rules that out. Which value comes back is
/// chance.
#[verifier::external_body]
pub(crate) fn random_below(n: usize) -> (r: usize)
    requires
        n > 0,
    ensures
        r < n,
{
    rand::thread_rng().gen_range(0..n)
}

/// A random 64-bit number.
///
/// Trusted: calls `fastrand::u64(..)`, which draws from the full range of
/// `u64`. Which value comes back is chance.
#[verifier::external_body]
pub(crate) fn random_u64() -> (r: u64) {
    fastrand::u64(..)
}

/// A random 32-bit number.
///
/// Trusted: calls `rand::random::<u32>()`. Which value comes back is chance.
#[verifier::external_body]
pub(crate) fn random_u32() -> (r: u32) {
    rand::random::<u32>()
}

/// A fresh random (version 4) UUID, as its 128-bit value.
///
/// Trusted: calls `uuid::Uuid::new_v4()` and reads it with `as_u128`. The
/// crate's source masks random bits so that the version field (bits 76 to
/// 79) reads 4 and the variant field (bits 62 and 63) reads `10`; the other
/// bits are chance.
#[verifier::external_body]
pub(crate) fn new_v4_uuid() -> (r: u128)
    ensures
        (r >> 76u128) & 0xf == 4,
        (r >> 62u128) & 0x3 == 2,
{
    uuid::Uuid::new_v4().as_u128()
}

} // verus!
