//! The non-interactive prover: both verifier challenges are derived from the
//! transcript itself through the Fiat-Shamir hashes, each seeding a fresh
//! deterministic ChaCha generator.

use vstd::prelude::*;

use crate::challenger::Verifier;
use crate::errors::InternalError;
use crate::hashing::fs_hash1;
use crate::hashing::fs_hash2;
use crate::prover::spec_h;
use crate::prover::Prover;
use crate::rng::chacha_from_seed;
use crate::util::copy_bytes;
use crate::Param;
use rand_chacha::ChaCha20Rng;

verus! {

/// A prover that derives the verifier's challenges itself.
pub struct NIProver {
    pub prover: Prover,
}

/// The non-interactive proof: the step-1 transcript digest, and the step-2
/// response digest with the revealed inner seeds.
pub struct NIProverMsg {
    pub step1: Vec<u8>,
    pub step2: (Vec<u8>, Vec<Vec<u8>>),
}

impl NIProver {
    /// Create a non-interactive prover with a fresh random witness-instance
    /// pair.
    pub fn new(rng: &mut ChaCha20Rng, param: Param) -> (r: NIProver)
        ensures
            r.prover.param == param,
            param.wf() ==> (r.prover.wf() && r.prover.witness.is_binary()),
    {
        NIProver { prover: Prover::new(rng, param) }
    }

    /// Produce a complete proof: run step 1, derive J from the transcript
    /// digest, run step 2, and derive L from the response.  The challenges
    /// the prover derives for itself are always well-formed, so this cannot
    /// fail.
    pub fn prove(self) -> (r: Result<NIProverMsg, InternalError>)
        requires
            self.prover.wf(),
            self.prover.witness.is_binary(),
        ensures
            r matches Ok(m) && m.step1@ == spec_h(
                self.prover.mseed@,
                self.prover.iv@,
                self.prover.param,
            ),
    {
        let state = self.prover.step1();
        let h = copy_bytes(&state.h);
        let verifier = Verifier::new(self.prover.param);

        let fs_seed1 = fs_hash1(&h);
        let mut rng1 = chacha_from_seed(&fs_seed1);
        let chal_j = verifier.step1(&mut rng1);

        let (h_prime, mseeds) = match self.prover.step2(&state, &chal_j) {
            Ok(p) => p,
            Err(e) => {
                return Err(e);
            },
        };

        let fs_seed2 = fs_hash2(&h_prime, &mseeds);
        let mut rng2 = chacha_from_seed(&fs_seed2);
        let chal_l = verifier.step2(&mut rng2);
        self.prover.step3(&state, &chal_l);

        Ok(NIProverMsg { step1: h, step2: (h_prime, mseeds) })
    }
}

} // verus!
