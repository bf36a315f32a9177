//! Workload generation: synthetic pseudo-random payloads and randomized,
//! effectively-unique write keys.

use vstd::prelude::*;
use rand::Rng;

verus! {

/// Whether `b` is an ASCII alphanumeric byte (a-z, A-Z or 0-9).
pub open spec fn is_alnum_byte(b: u8) -> bool {
    (97 <= b && b <= 122) || (65 <= b && b <= 90) || (48 <= b && b <= 57)
}

/// Generates the fixed-length (100-byte) randomized key for one write.
/// Uniqueness is probabilistic, not guaranteed: a collision merely overwrites
/// an earlier record, which the benchmark accepts as a benign rare event.
///
/// Relies on rand's `thread_rng` and the `Alphanumeric` distribution, which
/// samples uniformly from the bytes a-z, A-Z, 0-9.
#[verifier::external_body]
pub fn generate_random_key() -> (key: Vec<u8>)
    ensures
        key@.len() == 100,
        forall|i: int| 0 <= i < key@.len() ==> is_alnum_byte(#[trigger] key@[i]),
{
    rand::thread_rng()
        .sample_iter(&rand::distributions::Alphanumeric)
        .take(100)
        .collect()
}

/// Produces one synthetic payload: freshly generated pseudo-random bytes of
/// exactly the requested size. No state is carried across calls other than
/// the random source.
///
/// Relies on rand's `thread_rng` and `RngCore::fill_bytes`.
#[verifier::external_body]
pub fn next_payload(size: usize) -> (payload: Vec<u8>)
    ensures
        payload@.len() == size,
{
    let mut payload = vec![0u8; size];
    rand::RngCore::fill_bytes(&mut rand::thread_rng(), &mut payload);
    payload
}

} // verus!
