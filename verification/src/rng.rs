//! Trusted boundary around the ChaCha20 random number generator and the
//! slice shuffle, the only sources of randomness in the protocol.

use vstd::prelude::*;

use crate::consts::DIGEST_SIZE;
use rand::seq::SliceRandom;
use rand_chacha::ChaCha20Rng;
use rand_core::RngCore;
use rand_core::SeedableRng;

verus! {

/// The ChaCha20 RNG of rand_chacha, opaque to verification; all draws go
/// through the wrappers below.
#[verifier::external_type_specification]
#[verifier::external_body]
pub struct ExChaCha20Rng(ChaCha20Rng);

/// Relies on rand_chacha::ChaCha20Rng::from_seed (SeedableRng): builds a
/// deterministic ChaCha20 generator from a 32-byte seed.
#[verifier::external_body]
pub(crate) fn chacha_from_seed(seed: &Vec<u8>) -> ChaCha20Rng
    requires
        seed@.len() == DIGEST_SIZE,
{
    let mut s = [0u8; 32];
    s.copy_from_slice(seed.as_slice());
    ChaCha20Rng::from_seed(s)
}

/// Relies on rand_core::RngCore::next_u64 for ChaCha20Rng: returns the next
/// 64 bits of the stream; nothing is assumed of the value.
#[verifier::external_body]
pub(crate) fn chacha_next_u64(rng: &mut ChaCha20Rng) -> u64 {
    rng.next_u64()
}

/// Relies on rand_core::RngCore::fill_bytes for ChaCha20Rng: fills the whole
/// buffer, so the result has exactly the requested length; nothing is assumed
/// of the bytes' values.
#[verifier::external_body]
pub(crate) fn chacha_fill_bytes(rng: &mut ChaCha20Rng, n: usize) -> (r: Vec<u8>)
    ensures
        r@.len() == n,
{
    let mut buf = vec![0u8; n];
    rng.fill_bytes(&mut buf);
    buf
}

/// Relies on rand::seq::SliceRandom::shuffle: a Fisher-Yates shuffle permutes
/// the slice in place, so its length and the multiset of its elements are
/// unchanged; nothing is assumed of the order.
#[verifier::external_body]
pub(crate) fn shuffle_indices(v: &mut Vec<usize>, rng: &mut ChaCha20Rng)
    ensures
        final(v)@.len() == old(v)@.len(),
        final(v)@.to_multiset() == old(v)@.to_multiset(),
{
    v.as_mut_slice().shuffle(rng);
}

} // verus!
