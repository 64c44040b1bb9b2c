//! The verifier of the subset-sum MPCitH protocol: challenge sampling and a
//! state machine driving the verifier side of the interactive protocol.

use vstd::prelude::*;

use crate::errors::InternalError;
use crate::rng::chacha_next_u64;
use crate::rng::shuffle_indices;
use crate::Param;
use crate::ProverMsg;
use crate::VerifierMsg;
use rand_chacha::ChaCha20Rng;

verus! {

/// The verifier owns only its parameters; challenge sampling draws from an
/// RNG handed in by the caller.
pub struct Verifier {
    pub param: Param,
}

impl Verifier {
    pub fn new(param: Param) -> (r: Verifier)
        ensures
            r.param == param,
    {
        Verifier { param }
    }

    /// Sample the challenge set J: shuffle the list [0, M) and keep the first
    /// tau entries, giving tau distinct indices, each below M.
    pub fn step1(&self, rng: &mut ChaCha20Rng) -> (r: Vec<usize>)
        requires
            self.param.wf(),
        ensures
            r@.len() == self.param.rep_param,
            forall|i: int| 0 <= i < r@.len() ==> #[trigger] r@[i] < self.param.cnc_param,
            forall|i: int, j: int| 0 <= i < j < r@.len() ==> r@[i] != r@[j],
    {
        let m = self.param.cnc_param;
        let tau = self.param.rep_param;
        let mut tmp: Vec<usize> = Vec::new();
        let mut e: usize = 0;
        while e < m
            invariant
                e <= m,
                tmp@.len() == e,
                forall|x: int| 0 <= x < e ==> #[trigger] tmp@[x] == x,
            decreases m - e,
        {
            tmp.push(e);
            e = e + 1;
        }
        let ghost orig = tmp@;
        shuffle_indices(&mut tmp, rng);
        proof {
            broadcast use vstd::seq_lib::group_to_multiset_ensures;

            assert(orig.no_duplicates());
            orig.lemma_multiset_has_no_duplicates();
            assert forall|x: usize| tmp@.to_multiset().contains(x) implies tmp@.to_multiset().count(
                x,
            ) == 1 by {
                assert(orig.to_multiset().contains(x));
            }
            tmp@.lemma_multiset_has_no_duplicates_conv();
            assert forall|i: int| 0 <= i < tmp@.len() implies #[trigger] tmp@[i] < m by {
                assert(tmp@.contains(tmp@[i]));
                assert(tmp@.to_multiset().count(tmp@[i]) > 0);
                assert(orig.to_multiset().count(tmp@[i]) > 0);
                assert(orig.contains(tmp@[i]));
                let w = choose|w: int| 0 <= w < orig.len() && orig[w] == tmp@[i];
                assert(orig[w] == w as usize);
            }
        }
        let mut out: Vec<usize> = Vec::new();
        let mut i: usize = 0;
        while i < tau
            invariant
                i <= tau,
                tau <= m,
                tmp@.len() == m,
                tmp@.no_duplicates(),
                forall|x: int| 0 <= x < m ==> #[trigger] tmp@[x] < m,
                m == self.param.cnc_param,
                out@.len() == i,
                forall|x: int| 0 <= x < i ==> #[trigger] out@[x] == tmp@[x],
            decreases tau - i,
        {
            out.push(tmp[i]);
            i = i + 1;
        }
        out
    }

    /// Sample the challenge vector L: tau draws, each an RNG word reduced
    /// modulo the party count, so repetitions are allowed.
    pub fn step2(&self, rng: &mut ChaCha20Rng) -> (r: Vec<usize>)
        requires
            self.param.wf(),
        ensures
            r@.len() == self.param.rep_param,
            forall|i: int| 0 <= i < r@.len() ==> #[trigger] r@[i] < self.param.party_count,
    {
        let tau = self.param.rep_param;
        let np = self.param.party_count;
        let mut out: Vec<usize> = Vec::new();
        let mut i: usize = 0;
        while i < tau
            invariant
                i <= tau,
                np == self.param.party_count,
                1 <= np <= 0x1000_0000,
                out@.len() == i,
                forall|x: int| 0 <= x < i ==> #[trigger] out@[x] < np,
            decreases tau - i,
        {
            let word = chacha_next_u64(rng);
            out.push((word % (np as u64)) as usize);
            i = i + 1;
        }
        out
    }

    /// Accept the transcript.  The recomputation check over the revealed
    /// seeds is an open requirement of the protocol and deliberately not
    /// performed here: every transcript is accepted.
    pub fn verify(&self, h: &Vec<u8>, h_prime: &Vec<u8>, mseeds: &Vec<Vec<u8>>) -> (r: bool)
        ensures
            r == true,
    {
        let _ = h;
        let _ = h_prime;
        let _ = mseeds;
        true
    }
}

/// Where the interactive verifier stands in the message exchange.
#[derive(Debug, Clone, Copy, PartialEq, Eq, Structural)]
pub enum VerifierPhase {
    /// The step-1 digest is expected.
    AwaitH,
    /// The step-2 response is expected.
    AwaitSecond,
    /// The exchange is over.
    Done,
}

/// The verifier side of the interactive protocol: the verifier, the prover
/// messages received so far, and the phase of the exchange.
pub struct IVerifier {
    pub verifier: Verifier,
    pub h: Vec<u8>,
    pub h_prime: Vec<u8>,
    pub mseeds: Vec<Vec<u8>>,
    pub phase: VerifierPhase,
}

impl IVerifier {
    /// Wrap a verifier into a session at its start.
    pub fn new(verifier: Verifier) -> (r: IVerifier)
        ensures
            r.verifier == verifier,
            r.phase == VerifierPhase::AwaitH,
    {
        IVerifier {
            verifier,
            h: Vec::new(),
            h_prime: Vec::new(),
            mseeds: Vec::new(),
            phase: VerifierPhase::AwaitH,
        }
    }

    /// Feed one prover message to the session; a message of the wrong variant
    /// for the current phase fails with `ProtocolError` and leaves the
    /// session unchanged.
    pub fn on_prover_msg(&mut self, rng: &mut ChaCha20Rng, msg: ProverMsg) -> (r: Result<
        VerifierMsg,
        InternalError,
    >)
        requires
            old(self).verifier.param.wf(),
        ensures
            final(self).verifier == old(self).verifier,
            old(self).phase == VerifierPhase::Done ==> r == Err::<VerifierMsg, InternalError>(
                InternalError::ProtocolError,
            ) && final(self).phase == old(self).phase,
            old(self).phase == VerifierPhase::AwaitH ==> (msg matches ProverMsg::Step2(_) ==> r
                == Err::<VerifierMsg, InternalError>(InternalError::ProtocolError)
                && final(self).phase == old(self).phase),
            old(self).phase == VerifierPhase::AwaitSecond ==> (msg matches ProverMsg::Step1(_)
                ==> r == Err::<VerifierMsg, InternalError>(InternalError::ProtocolError)
                && final(self).phase == old(self).phase),
            old(self).phase == VerifierPhase::AwaitH ==> (msg matches ProverMsg::Step1(h) ==> {
                &&& r matches Ok(VerifierMsg::Step1(chal))
                &&& chal@.len() == old(self).verifier.param.rep_param
                &&& (forall|i: int|
                    0 <= i < chal@.len() ==> #[trigger] chal@[i]
                        < old(self).verifier.param.cnc_param)
                &&& (forall|i: int, j: int| 0 <= i < j < chal@.len() ==> chal@[i] != chal@[j])
                &&& final(self).phase == VerifierPhase::AwaitSecond
                &&& final(self).h == h
            }),
            old(self).phase == VerifierPhase::AwaitSecond ==> (msg matches ProverMsg::Step2(p)
                ==> {
                &&& r matches Ok(VerifierMsg::Step2(chal))
                &&& chal@.len() == old(self).verifier.param.rep_param
                &&& (forall|i: int|
                    0 <= i < chal@.len() ==> #[trigger] chal@[i]
                        < old(self).verifier.param.party_count)
                &&& final(self).phase == VerifierPhase::Done
                &&& final(self).h_prime == p.0
                &&& final(self).mseeds == p.1
            }),
    {
        match self.phase {
            VerifierPhase::Done => Err(InternalError::ProtocolError),
            VerifierPhase::AwaitH => {
                match msg {
                    ProverMsg::Step1(h) => {
                        self.h = h;
                        self.phase = VerifierPhase::AwaitSecond;
                        Ok(VerifierMsg::Step1(self.verifier.step1(rng)))
                    },
                    ProverMsg::Step2(_) => Err(InternalError::ProtocolError),
                }
            },
            VerifierPhase::AwaitSecond => {
                match msg {
                    ProverMsg::Step2(p) => {
                        let (h_prime, mseeds) = p;
                        self.h_prime = h_prime;
                        self.mseeds = mseeds;
                        self.phase = VerifierPhase::Done;
                        Ok(VerifierMsg::Step2(self.verifier.step2(rng)))
                    },
                    ProverMsg::Step1(_) => Err(InternalError::ProtocolError),
                }
            },
        }
    }

    /// The verdict once the exchange is over: the acceptance check over the
    /// recorded transcript (currently the open-requirement stub, which
    /// accepts).
    pub fn finish(&self) -> (r: bool)
        requires
            self.phase == VerifierPhase::Done,
        ensures
            r == true,
    {
        self.verifier.verify(&self.h, &self.h_prime, &self.mseeds)
    }
}

} // verus!
