//! Prover and verifier core for a zero-knowledge proof of knowledge of a
//! subset-sum witness, in the MPC-in-the-Head paradigm with cut-and-choose.

use vstd::prelude::*;
use vstd::bytes::spec_u64_to_le_bytes;
use vstd::wrapping::u64_specs;

pub mod challenger;
pub mod consts;
pub mod errors;
pub mod fiat_shamir;
pub mod hashing;
pub mod prg;
pub mod prover;
pub mod rng;
pub mod util;

use crate::consts::BLOCK_SIZE;
use crate::consts::PREFIX_INSTANCE;
use crate::consts::PREFIX_WITNESS;
use crate::errors::InternalError;
use crate::hashing::le_concat;
use crate::hashing::sha3_256;
use crate::hashing::spec_sha3;
use crate::util::append_block8;
use crate::util::append_bytes;
use crate::util::append_u64_le;
use rand_chacha::ChaCha20Rng;

verus! {

/// Parameters of the subset-sum MPCitH protocol.
#[derive(Debug, Copy, Clone)]
pub struct Param {
    /// Dimension of the subset-sum problem (n).
    pub ssp_dimension: usize,
    /// Number of simulated parties (N).
    pub party_count: usize,
    /// Number of cut-and-choose repetitions (M).
    pub cnc_param: usize,
    /// Number of repetitions opened by the verifier (tau).
    pub rep_param: usize,
    /// Bit width of the share modulus (log A).
    pub abort_param: usize,
}

impl Param {
    /// Bounds that keep every intermediate index and allocation within
    /// machine range.
    pub open spec fn fits(self) -> bool {
        &&& self.ssp_dimension <= 0x1000_0000
        &&& self.party_count <= 0x1000_0000
        &&& self.cnc_param <= 0x1000_0000
    }

    /// The documented parameter invariant: all counts positive, no more
    /// repetitions opened than run, and a share modulus below 2^64.
    pub open spec fn wf(self) -> bool {
        &&& 1 <= self.ssp_dimension
        &&& 1 <= self.party_count
        &&& 1 <= self.cnc_param
        &&& 1 <= self.rep_param
        &&& self.rep_param <= self.cnc_param
        &&& self.abort_param < 64
        &&& self.fits()
    }
}

impl Default for Param {
    /// The default parameter set: n = 128, N = 4, M = 100, tau = 24, log A = 14.
    fn default() -> (r: Param)
        ensures
            r.ssp_dimension == 128,
            r.party_count == 4,
            r.cnc_param == 100,
            r.rep_param == 24,
            r.abort_param == 14,
            r.wf(),
    {
        Param {
            ssp_dimension: 128,
            party_count: 4,
            cnc_param: 100,
            rep_param: 24,
            abort_param: 14,
        }
    }
}

/// The witness (solution) to the subset-sum problem: one byte per coordinate,
/// each 0 or 1.
#[derive(Debug, Clone)]
pub struct Witness(pub Vec<u8>);

impl Witness {
    /// The documented witness invariant: every byte is 0 or 1.
    pub open spec fn is_binary(self) -> bool {
        forall|k: int| 0 <= k < self.0@.len() ==> self.0@[k] <= 1
    }

    pub fn len(&self) -> (r: usize)
        ensures
            r == self.0@.len(),
    {
        self.0.len()
    }
}

/// The instance of the subset-sum problem: public weights and the target.
#[derive(Debug, Clone)]
pub struct Instance {
    pub weights: Vec<u64>,
    pub t: u64,
}

/// The inner product of the first `upto` weights with the witness bytes,
/// all arithmetic wrapping modulo 2^64.
pub open spec fn spec_dot(weights: Seq<u64>, xs: Seq<u8>, upto: int) -> u64
    decreases upto,
{
    if upto <= 0 {
        0u64
    } else {
        u64_specs::wrapping_add(
            spec_dot(weights, xs, upto - 1),
            u64_specs::wrapping_mul(weights[upto - 1], xs[upto - 1] as u64),
        )
    }
}

/// The outcome of the prover-side sanity check on a (witness, instance,
/// parameter) triple: the first failing condition, in checking order.
pub open spec fn spec_sanity_check(witness: Witness, instance: Instance, param: Param) -> Result<
    (),
    InternalError,
> {
    if witness.0@.len() != param.ssp_dimension {
        Err(InternalError::BadWitnessLength)
    } else if instance.weights@.len() != param.ssp_dimension {
        Err(InternalError::BadInstanceLength)
    } else if param.abort_param >= 64 {
        Err(InternalError::BadAbortParam)
    } else if spec_dot(instance.weights@, witness.0@, param.ssp_dimension as int) != instance.t {
        Err(InternalError::BadWitnessOrInstance)
    } else {
        Ok(())
    }
}

/// Check that the witness and instance lengths match the dimension, that the
/// abort parameter is below 64 bits, and that the recomputed inner product
/// (wrapping modulo 2^64) equals the stated target.
pub fn sanity_check(witness: &Witness, instance: &Instance, param: Param) -> (r: Result<
    (),
    InternalError,
>)
    ensures
        r == spec_sanity_check(*witness, *instance, param),
{
    if witness.len() != param.ssp_dimension {
        return Err(InternalError::BadWitnessLength);
    }
    if instance.weights.len() != param.ssp_dimension {
        return Err(InternalError::BadInstanceLength);
    }
    if param.abort_param >= 64 {
        return Err(InternalError::BadAbortParam);
    }
    let n = param.ssp_dimension;
    let mut t: u64 = 0;
    let mut k: usize = 0;
    while k < n
        invariant
            k <= n,
            n == param.ssp_dimension,
            witness.0@.len() == n,
            instance.weights@.len() == n,
            t == spec_dot(instance.weights@, witness.0@, k as int),
        decreases n - k,
    {
        t = t.wrapping_add(instance.weights[k].wrapping_mul(witness.0[k] as u64));
        k = k + 1;
    }
    if t != instance.t {
        return Err(InternalError::BadWitnessOrInstance);
    }
    Ok(())
}

/// Sample a fresh random witness-instance pair of dimension `n`: a uniform
/// binary witness, uniform 64-bit weights, and the matching target.  The pair
/// always passes the sanity check whenever the abort parameter does.
pub fn new_witness_instance(rng: &mut ChaCha20Rng, param: Param) -> (r: (Witness, Instance))
    ensures
        r.0.0@.len() == param.ssp_dimension,
        r.0.is_binary(),
        r.1.weights@.len() == param.ssp_dimension,
        r.1.t == spec_dot(r.1.weights@, r.0.0@, param.ssp_dimension as int),
        param.abort_param < 64 ==> spec_sanity_check(r.0, r.1, param) == Ok::<(), InternalError>(
            (),
        ),
{
    let n = param.ssp_dimension;
    let raw = rng::chacha_fill_bytes(rng, n);
    let mut w: Vec<u8> = Vec::new();
    let mut i: usize = 0;
    while i < n
        invariant
            i <= n,
            raw@.len() == n,
            w@.len() == i,
            forall|k: int| 0 <= k < i ==> w@[k] <= 1,
        decreases n - i,
    {
        w.push(raw[i] % 2);
        i = i + 1;
    }
    let mut weights: Vec<u64> = Vec::new();
    let mut j: usize = 0;
    while j < n
        invariant
            j <= n,
            weights@.len() == j,
        decreases n - j,
    {
        weights.push(rng::chacha_next_u64(rng));
        j = j + 1;
    }
    let mut t: u64 = 0;
    let mut k: usize = 0;
    while k < n
        invariant
            k <= n,
            w@.len() == n,
            weights@.len() == n,
            t == spec_dot(weights@, w@, k as int),
        decreases n - k,
    {
        t = t.wrapping_add(weights[k].wrapping_mul(w[k] as u64));
        k = k + 1;
    }
    (Witness(w), Instance { weights, t })
}

/// The bytes absorbed to derive the IV binding every PRG expansion to the
/// statement being proved.
pub open spec fn spec_hwi_input(witness: Seq<u8>, weights: Seq<u64>, t: u64) -> Seq<u8> {
    PREFIX_WITNESS@ + spec_u64_to_le_bytes(witness.len() as u64) + witness + PREFIX_INSTANCE@
        + spec_u64_to_le_bytes(weights.len() as u64) + le_concat(weights) + spec_u64_to_le_bytes(t)
}

/// The statement-binding IV: the first 16 bytes of the hash over witness and
/// instance.
pub open spec fn spec_iv(witness: Seq<u8>, weights: Seq<u64>, t: u64) -> Seq<u8> {
    spec_sha3(spec_hwi_input(witness, weights, t)).subrange(0, BLOCK_SIZE as int)
}

/// Hash the witness and the instance into the 16-byte IV used by every PRG.
pub fn hash_witness_instance(witness: &Witness, instance: &Instance) -> (r: Vec<u8>)
    ensures
        r@ == spec_iv(witness.0@, instance.weights@, instance.t),
        r@.len() == BLOCK_SIZE,
{
    let mut input: Vec<u8> = Vec::new();
    append_block8(&mut input, &PREFIX_WITNESS);
    append_u64_le(&mut input, witness.len() as u64);
    append_bytes(&mut input, &witness.0);
    append_block8(&mut input, &PREFIX_INSTANCE);
    append_u64_le(&mut input, instance.weights.len() as u64);
    let ghost base = input@;
    let mut i: usize = 0;
    while i < instance.weights.len()
        invariant
            i <= instance.weights@.len(),
            input@ == base + le_concat(instance.weights@.subrange(0, i as int)),
        decreases instance.weights@.len() - i,
    {
        append_u64_le(&mut input, instance.weights[i]);
        proof {
            crate::hashing::lemma_le_concat_step(instance.weights@, i as int);
        }
        i = i + 1;
    }
    append_u64_le(&mut input, instance.t);
    proof {
        assert(instance.weights@.subrange(0, instance.weights@.len() as int)
            =~= instance.weights@);
        assert(input@ =~= spec_hwi_input(witness.0@, instance.weights@, instance.t));
    }
    let digest = sha3_256(&input);
    let mut iv: Vec<u8> = Vec::new();
    let mut j: usize = 0;
    while j < BLOCK_SIZE
        invariant
            j <= BLOCK_SIZE,
            digest@.len() == 32,
            iv@ == digest@.subrange(0, j as int),
        decreases BLOCK_SIZE - j,
    {
        iv.push(digest[j]);
        j = j + 1;
        proof {
            assert(iv@ =~= digest@.subrange(0, j as int));
        }
    }
    iv
}

/// A message from the prover to the verifier: the step-1 transcript digest,
/// or the step-2 response digest together with the revealed inner seeds.
#[derive(Debug)]
pub enum ProverMsg {
    Step1(Vec<u8>),
    Step2((Vec<u8>, Vec<Vec<u8>>)),
}

/// A message from the verifier to the prover: the challenge set J (distinct
/// repetition indices), or the challenge vector L (party indices, repetition
/// allowed).
#[derive(Debug)]
pub enum VerifierMsg {
    Step1(Vec<usize>),
    Step2(Vec<usize>),
}

} // verus!
