//! The prover of the subset-sum MPCitH protocol: step 1 builds the
//! per-repetition commitments and the transcript digest, step 2 answers the
//! cut-and-choose challenge, and a small state machine drives the prover side
//! of the interactive protocol.

use vstd::prelude::*;
use vstd::wrapping::u64_specs;

use crate::consts::BLOCK_SIZE;
use crate::consts::DIGEST_SIZE;
use crate::consts::OPENING_SIZE;
use crate::errors::InternalError;
use crate::hashing::Commitment;
use crate::hashing::Opening;
use crate::hashing::commit;
use crate::hashing::coms_views;
use crate::hashing::hash1;
use crate::hashing::hash2;
use crate::hashing::hash3;
use crate::hashing::hash4;
use crate::hashing::spec_commitment;
use crate::hashing::spec_hash1_input;
use crate::hashing::spec_hash2_input;
use crate::hashing::spec_hash3_input;
use crate::hashing::spec_hash4_input;
use crate::hashing::spec_sha3;
use crate::hashing::vec_views;
use crate::prg::prg_bin;
use crate::prg::prg_tree;
use crate::prg::prg_u64;
use crate::prg::spec_prg_bit;
use crate::prg::spec_prg_u64;
use crate::prg::tree_node;
use crate::rng::chacha_fill_bytes;
use crate::util::contains_usize;
use crate::util::copy_bytes;
use crate::Instance;
use crate::Param;
use crate::ProverMsg;
use crate::VerifierMsg;
use crate::Witness;
use crate::hash_witness_instance;
use crate::new_witness_instance;
use crate::sanity_check;
use crate::spec_iv;
use crate::spec_sanity_check;
use rand_chacha::ChaCha20Rng;

verus! {

/// The prover: it owns the witness, the instance, the master seed and the
/// statement-binding IV for the whole proof.
#[derive(Debug)]
pub struct Prover {
    pub witness: Witness,
    pub instance: Instance,
    pub mseed: Vec<u8>,
    pub iv: Vec<u8>,
    pub param: Param,
}

/// The state retained for one cut-and-choose repetition after step 1.
#[derive(Debug)]
pub struct ProverStateInner {
    /// The inner master seed of this repetition, a leaf of the outer tree.
    pub mseed_inner: Vec<u8>,
    /// The n masking bits, one byte each.
    pub rs: Vec<u8>,
    /// The per-party seeds, leaves of the inner tree.
    pub seeds: Vec<Vec<u8>>,
    /// The per-party commitment openings, leaves of the inner tree.
    pub rhos: Vec<Opening>,
    /// The per-party share vectors, reduced modulo 2^abort_param.
    pub r_shares: Vec<Vec<u64>>,
    /// The per-party commitments to the seeds.
    pub coms: Vec<Commitment>,
    /// The coordinate-wise sum of all parties' shares, modulo 2^64.
    pub r_shares_sum: Vec<u64>,
    /// The masking bits minus the share sums, modulo 2^64.
    pub delta_rs: Vec<u64>,
    /// The first-round digest of this repetition.
    pub h1: Vec<u8>,
}

/// The full prover state after step 1: one record per repetition, plus the
/// transcript digest over all first-round digests.
#[derive(Debug)]
pub struct ProverState {
    pub step1_state: Vec<ProverStateInner>,
    pub h: Vec<u8>,
}

// ---------------------------------------------------------------------------
// The spec-level model of step 1: every stored field is a pure function of
// (mseed, iv, param), built from the named PRG keystream and SHA3 digest.
// ---------------------------------------------------------------------------

/// The inner master seed of repetition `e`: leaf `e` of the outer GGM tree of
/// size `m`.
pub open spec fn spec_mseed_inner(mseed: Seq<u8>, iv: Seq<u8>, m: int, e: int) -> Seq<u8> {
    tree_node(mseed, iv, (m - 1 + e) as nat)
}

/// The seed of party `i`: leaf `2i` of the inner GGM tree of size `2 np`.
pub open spec fn spec_party_seed(mi: Seq<u8>, iv: Seq<u8>, np: int, i: int) -> Seq<u8> {
    tree_node(mi, iv, (2 * np - 1 + 2 * i) as nat)
}

/// The commitment opening of party `i`: leaf `2i + 1` of the inner GGM tree.
pub open spec fn spec_party_rho(mi: Seq<u8>, iv: Seq<u8>, np: int, i: int) -> Seq<u8> {
    tree_node(mi, iv, (2 * np + 2 * i) as nat)
}

/// Share `k` of a party: PRG word `k` under the party seed, reduced modulo
/// 2^abort_param.
pub open spec fn spec_r_share(party_seed: Seq<u8>, iv: Seq<u8>, abort_param: int, k: int) -> u64
    recommends
        0 <= abort_param < 64,
{
    spec_prg_u64(party_seed, iv, k) % (1u64 << (abort_param as u64))
}

/// The sum over the first `upto` parties of share `k`, wrapping modulo 2^64.
pub open spec fn spec_r_shares_sum(
    mi: Seq<u8>,
    iv: Seq<u8>,
    np: int,
    abort_param: int,
    upto: int,
    k: int,
) -> u64
    decreases upto,
{
    if upto <= 0 {
        0u64
    } else {
        u64_specs::wrapping_add(
            spec_r_shares_sum(mi, iv, np, abort_param, upto - 1, k),
            spec_r_share(spec_party_seed(mi, iv, np, upto - 1), iv, abort_param, k),
        )
    }
}

/// Coordinate `k` of delta_r: the masking bit minus the share sum, modulo
/// 2^64.
pub open spec fn spec_delta_r(mi: Seq<u8>, iv: Seq<u8>, np: int, abort_param: int, k: int) -> u64 {
    u64_specs::wrapping_sub(
        spec_prg_bit(mi, iv, k) as u64,
        spec_r_shares_sum(mi, iv, np, abort_param, np, k),
    )
}

/// The commitment of party `i`: the hash of its opening followed by its seed.
pub open spec fn spec_com(mi: Seq<u8>, iv: Seq<u8>, np: int, i: int) -> Seq<u8> {
    spec_commitment(spec_party_rho(mi, iv, np, i), spec_party_seed(mi, iv, np, i))
}

/// The delta_r vector of one repetition.
pub open spec fn spec_delta_seq(mi: Seq<u8>, iv: Seq<u8>, param: Param) -> Seq<u64> {
    Seq::new(
        param.ssp_dimension as nat,
        |k: int|
            spec_delta_r(mi, iv, param.party_count as int, param.abort_param as int, k),
    )
}

/// The commitment vector of one repetition.
pub open spec fn spec_coms_seq(mi: Seq<u8>, iv: Seq<u8>, param: Param) -> Seq<Seq<u8>> {
    Seq::new(
        param.party_count as nat,
        |i: int| spec_com(mi, iv, param.party_count as int, i),
    )
}

/// The first-round digest of one repetition.
pub open spec fn spec_h1(mi: Seq<u8>, iv: Seq<u8>, param: Param) -> Seq<u8> {
    spec_sha3(spec_hash1_input(spec_delta_seq(mi, iv, param), spec_coms_seq(mi, iv, param)))
}

/// The first-round digests of all repetitions, in repetition order.
pub open spec fn spec_h1s_seq(mseed: Seq<u8>, iv: Seq<u8>, param: Param) -> Seq<Seq<u8>> {
    Seq::new(
        param.cnc_param as nat,
        |e: int|
            spec_h1(spec_mseed_inner(mseed, iv, param.cnc_param as int, e), iv, param),
    )
}

/// The step-1 transcript digest.
pub open spec fn spec_h(mseed: Seq<u8>, iv: Seq<u8>, param: Param) -> Seq<u8> {
    spec_sha3(spec_hash2_input(spec_h1s_seq(mseed, iv, param)))
}

/// One repetition record agrees, field by field, with the model of step 1
/// under inner seed `mi`, IV `iv` and parameters `param`.
pub open spec fn inner_matches(
    inner: ProverStateInner,
    mi: Seq<u8>,
    iv: Seq<u8>,
    param: Param,
) -> bool {
    let n = param.ssp_dimension as int;
    let np = param.party_count as int;
    let la = param.abort_param as int;
    &&& inner.mseed_inner@ == mi
    &&& inner.mseed_inner@.len() == BLOCK_SIZE
    &&& inner.rs@.len() == n
    &&& (forall|k: int| 0 <= k < n ==> #[trigger] inner.rs@[k] == spec_prg_bit(mi, iv, k))
    &&& inner.seeds@.len() == np
    &&& (forall|i: int|
        0 <= i < np ==> (#[trigger] inner.seeds@[i])@ == spec_party_seed(mi, iv, np, i)
            && inner.seeds@[i]@.len() == BLOCK_SIZE)
    &&& inner.rhos@.len() == np
    &&& (forall|i: int|
        0 <= i < np ==> (#[trigger] inner.rhos@[i]).inner@ == spec_party_rho(mi, iv, np, i)
            && inner.rhos@[i].inner@.len() == OPENING_SIZE)
    &&& inner.r_shares@.len() == np
    &&& (forall|i: int| 0 <= i < np ==> (#[trigger] inner.r_shares@[i])@.len() == n)
    &&& (forall|i: int, k: int|
        0 <= i < np && 0 <= k < n ==> #[trigger] inner.r_shares@[i]@[k] == spec_r_share(
            spec_party_seed(mi, iv, np, i),
            iv,
            la,
            k,
        ))
    &&& inner.coms@.len() == np
    &&& (forall|i: int|
        0 <= i < np ==> (#[trigger] inner.coms@[i]).inner@ == spec_com(mi, iv, np, i)
            && inner.coms@[i].inner@.len() == DIGEST_SIZE)
    &&& inner.r_shares_sum@.len() == n
    &&& (forall|k: int|
        0 <= k < n ==> #[trigger] inner.r_shares_sum@[k] == spec_r_shares_sum(
            mi,
            iv,
            np,
            la,
            np,
            k,
        ))
    &&& inner.delta_rs@.len() == n
    &&& (forall|k: int|
        0 <= k < n ==> #[trigger] inner.delta_rs@[k] == spec_delta_r(mi, iv, np, la, k))
    &&& inner.h1@ == spec_h1(mi, iv, param)
    &&& inner.h1@.len() == DIGEST_SIZE
}

/// A whole prover state agrees with the model of step 1 for prover `p`.
pub open spec fn step1_matches(p: Prover, r: ProverState) -> bool {
    &&& r.step1_state@.len() == p.param.cnc_param
    &&& (forall|e: int|
        0 <= e < p.param.cnc_param ==> inner_matches(
            #[trigger] r.step1_state@[e],
            spec_mseed_inner(p.mseed@, p.iv@, p.param.cnc_param as int, e),
            p.iv@,
            p.param,
        ))
    &&& r.h@ == spec_h(p.mseed@, p.iv@, p.param)
}

impl ProverState {
    /// The structural bounds step 2 needs of a retained state: one record per
    /// repetition, masking bits binary, and every share vector of dimension n.
    pub open spec fn wf(self, param: Param) -> bool {
        &&& self.step1_state@.len() == param.cnc_param
        &&& (forall|e: int|
            0 <= e < param.cnc_param ==> (#[trigger] self.step1_state@[e]).rs@.len()
                == param.ssp_dimension)
        &&& (forall|e: int, k: int|
            0 <= e < param.cnc_param && 0 <= k < param.ssp_dimension
                ==> #[trigger] self.step1_state@[e].rs@[k] <= 1)
        &&& (forall|e: int|
            0 <= e < param.cnc_param ==> (#[trigger] self.step1_state@[e]).r_shares@.len()
                == param.party_count)
        &&& (forall|e: int, i: int|
            0 <= e < param.cnc_param && 0 <= i < param.party_count
                ==> (#[trigger] self.step1_state@[e].r_shares@[i])@.len() == param.ssp_dimension)
    }

    /// An empty state with an all-zero digest.
    pub fn new() -> (r: ProverState)
        ensures
            r.step1_state@.len() == 0,
            r.h@.len() == DIGEST_SIZE,
    {
        let mut h: Vec<u8> = Vec::new();
        let mut i: usize = 0;
        while i < DIGEST_SIZE
            invariant
                i <= DIGEST_SIZE,
                h@.len() == i,
            decreases DIGEST_SIZE - i,
        {
            h.push(0);
            i = i + 1;
        }
        ProverState { step1_state: Vec::new(), h }
    }

    /// Replace the transcript digest.
    pub fn set_h(&mut self, h: Vec<u8>)
        ensures
            final(self).h == h,
            final(self).step1_state == old(self).step1_state,
    {
        self.h = h;
    }

    /// Append one repetition record.
    pub fn push_inner(&mut self, inner: ProverStateInner)
        ensures
            final(self).step1_state@ == old(self).step1_state@.push(inner),
            final(self).h == old(self).h,
    {
        self.step1_state.push(inner);
    }
}

impl Prover {
    /// Everything step 1 needs of a prover: sound parameters, matching
    /// lengths, and 16-byte seed and IV.
    pub open spec fn wf(self) -> bool {
        &&& self.param.wf()
        &&& self.witness.0@.len() == self.param.ssp_dimension
        &&& self.instance.weights@.len() == self.param.ssp_dimension
        &&& self.mseed@.len() == BLOCK_SIZE
        &&& self.iv@.len() == BLOCK_SIZE
    }

    /// Create a new prover with a random witness-instance pair and a random
    /// master seed.
    pub fn new(rng: &mut ChaCha20Rng, param: Param) -> (r: Prover)
        ensures
            r.param == param,
            r.witness.is_binary(),
            r.witness.0@.len() == param.ssp_dimension,
            r.instance.weights@.len() == param.ssp_dimension,
            r.mseed@.len() == BLOCK_SIZE,
            r.iv@ == spec_iv(r.witness.0@, r.instance.weights@, r.instance.t),
            param.abort_param < 64 ==> spec_sanity_check(r.witness, r.instance, param)
                == Ok::<(), InternalError>(()),
            param.wf() ==> r.wf(),
    {
        let (witness, instance) = new_witness_instance(rng, param);
        let mseed = chacha_fill_bytes(rng, BLOCK_SIZE);
        Prover::from_witness_instance_unchecked(witness, instance, mseed, param)
    }

    /// Create a new prover from a given witness-instance pair; errors exactly
    /// when the sanity check does.
    pub fn from_witness_instance(
        witness: Witness,
        instance: Instance,
        mseed: Vec<u8>,
        param: Param,
    ) -> (r: Result<Prover, InternalError>)
        requires
            mseed@.len() == BLOCK_SIZE,
        ensures
            spec_sanity_check(witness, instance, param) matches Err(e) ==> r == Err::<
                Prover,
                InternalError,
            >(e),
            spec_sanity_check(witness, instance, param) is Ok ==> (r matches Ok(p) && p.witness
                == witness && p.instance == instance && p.mseed == mseed && p.param == param
                && p.iv@ == spec_iv(witness.0@, instance.weights@, instance.t) && (param.wf()
                ==> p.wf())),
    {
        match sanity_check(&witness, &instance, param) {
            Ok(_) => Ok(Prover::from_witness_instance_unchecked(witness, instance, mseed, param)),
            Err(e) => Err(e),
        }
    }

    /// Assemble a prover without checking, deriving the IV from the witness
    /// and the instance.
    pub fn from_witness_instance_unchecked(
        witness: Witness,
        instance: Instance,
        mseed: Vec<u8>,
        param: Param,
    ) -> (r: Prover)
        ensures
            r.witness == witness,
            r.instance == instance,
            r.mseed == mseed,
            r.param == param,
            r.iv@ == spec_iv(witness.0@, instance.weights@, instance.t),
            r.iv@.len() == BLOCK_SIZE,
    {
        let iv = hash_witness_instance(&witness, &instance);
        Prover { witness, instance, mseed, iv, param }
    }

    /// Build the full record of one repetition from its inner master seed.
    fn step1_repetition(&self, mseed_inner: &Vec<u8>) -> (inner: ProverStateInner)
        requires
            self.wf(),
            mseed_inner@.len() == BLOCK_SIZE,
        ensures
            inner_matches(inner, mseed_inner@, self.iv@, self.param),
    {
        let n = self.param.ssp_dimension;
        let np = self.param.party_count;
        let ghost mi = mseed_inner@;
        let ghost ivv = self.iv@;
        let rs = prg_bin(mseed_inner, &self.iv, n);
        let pairs = prg_tree(mseed_inner, &self.iv, 2 * np);
        let mut seeds: Vec<Vec<u8>> = Vec::new();
        let mut rhos: Vec<Opening> = Vec::new();
        let mut i: usize = 0;
        while i < np
            invariant
                i <= np,
                np == self.param.party_count,
                np <= 0x1000_0000,
                pairs@.len() == 2 * np,
                forall|j: int|
                    0 <= j < 2 * np ==> (#[trigger] pairs@[j])@ == tree_node(
                        mi,
                        ivv,
                        (2 * np - 1 + j) as nat,
                    ) && pairs@[j]@.len() == BLOCK_SIZE,
                seeds@.len() == i,
                rhos@.len() == i,
                forall|x: int|
                    0 <= x < i ==> (#[trigger] seeds@[x])@ == spec_party_seed(mi, ivv, np as int, x)
                        && seeds@[x]@.len() == BLOCK_SIZE,
                forall|x: int|
                    0 <= x < i ==> (#[trigger] rhos@[x]).inner@ == spec_party_rho(
                        mi,
                        ivv,
                        np as int,
                        x,
                    ) && rhos@[x].inner@.len() == OPENING_SIZE,
            decreases np - i,
        {
            seeds.push(copy_bytes(&pairs[2 * i]));
            rhos.push(Opening::new(copy_bytes(&pairs[2 * i + 1])));
            i = i + 1;
        }
        let sh = self.param.abort_param as u64;
        let modulus: u64 = 1u64 << sh;
        proof {
            assert(1u64 << sh > 0) by (bit_vector)
                requires
                    sh < 64,
            ;
        }
        let mut r_shares: Vec<Vec<u64>> = Vec::new();
        let mut i2: usize = 0;
        while i2 < np
            invariant
                i2 <= np,
                np == self.param.party_count,
                n == self.param.ssp_dimension,
                self.wf(),
                ivv == self.iv@,
                modulus == 1u64 << ((self.param.abort_param as int) as u64),
                modulus > 0,
                seeds@.len() == np,
                forall|x: int|
                    0 <= x < np ==> (#[trigger] seeds@[x])@ == spec_party_seed(mi, ivv, np as int, x)
                        && seeds@[x]@.len() == BLOCK_SIZE,
                r_shares@.len() == i2,
                forall|x: int| 0 <= x < i2 ==> (#[trigger] r_shares@[x])@.len() == n,
                forall|x: int, k: int|
                    0 <= x < i2 && 0 <= k < n ==> #[trigger] r_shares@[x]@[k] == spec_r_share(
                        spec_party_seed(mi, ivv, np as int, x),
                        ivv,
                        self.param.abort_param as int,
                        k,
                    ),
            decreases np - i2,
        {
            let raw = prg_u64(&seeds[i2], &self.iv, n);
            let mut red: Vec<u64> = Vec::new();
            let mut k: usize = 0;
            while k < n
                invariant
                    k <= n,
                    raw@.len() == n,
                    modulus > 0,
                    modulus == 1u64 << ((self.param.abort_param as int) as u64),
                    forall|q: int|
                        0 <= q < n ==> #[trigger] raw@[q] == spec_prg_u64(seeds@[i2 as int]@, ivv, q),
                    red@.len() == k,
                    forall|q: int|
                        0 <= q < k ==> #[trigger] red@[q] == spec_r_share(
                            seeds@[i2 as int]@,
                            ivv,
                            self.param.abort_param as int,
                            q,
                        ),
                    i2 < np,
                    seeds@.len() == np,
                decreases n - k,
            {
                red.push(raw[k] % modulus);
                k = k + 1;
            }
            r_shares.push(red);
            i2 = i2 + 1;
        }
        let mut coms: Vec<Commitment> = Vec::new();
        let mut i3: usize = 0;
        while i3 < np
            invariant
                i3 <= np,
                np == self.param.party_count,
                seeds@.len() == np,
                rhos@.len() == np,
                forall|x: int|
                    0 <= x < np ==> (#[trigger] seeds@[x])@ == spec_party_seed(
                        mi,
                        ivv,
                        np as int,
                        x,
                    ),
                forall|x: int|
                    0 <= x < np ==> (#[trigger] rhos@[x]).inner@ == spec_party_rho(
                        mi,
                        ivv,
                        np as int,
                        x,
                    ),
                coms@.len() == i3,
                forall|x: int|
                    0 <= x < i3 ==> (#[trigger] coms@[x]).inner@ == spec_com(mi, ivv, np as int, x)
                        && coms@[x].inner@.len() == DIGEST_SIZE,
            decreases np - i3,
        {
            coms.push(commit(&seeds[i3], &rhos[i3]));
            i3 = i3 + 1;
        }
        let ghost la = self.param.abort_param as int;
        let mut r_shares_sum: Vec<u64> = Vec::new();
        let mut k2: usize = 0;
        while k2 < n
            invariant
                k2 <= n,
                n == self.param.ssp_dimension,
                np == self.param.party_count,
                la == self.param.abort_param as int,
                r_shares@.len() == np,
                forall|x: int| 0 <= x < np ==> (#[trigger] r_shares@[x])@.len() == n,
                forall|x: int, q: int|
                    0 <= x < np && 0 <= q < n ==> #[trigger] r_shares@[x]@[q] == spec_r_share(
                        spec_party_seed(mi, ivv, np as int, x),
                        ivv,
                        la,
                        q,
                    ),
                r_shares_sum@.len() == k2,
                forall|q: int|
                    0 <= q < k2 ==> #[trigger] r_shares_sum@[q] == spec_r_shares_sum(
                        mi,
                        ivv,
                        np as int,
                        la,
                        np as int,
                        q,
                    ),
            decreases n - k2,
        {
            let mut acc: u64 = 0;
            let mut p: usize = 0;
            while p < np
                invariant
                    p <= np,
                    k2 < n,
                    n == self.param.ssp_dimension,
                    np == self.param.party_count,
                    la == self.param.abort_param as int,
                    r_shares@.len() == np,
                    forall|x: int| 0 <= x < np ==> (#[trigger] r_shares@[x])@.len() == n,
                    forall|x: int, q: int|
                        0 <= x < np && 0 <= q < n ==> #[trigger] r_shares@[x]@[q] == spec_r_share(
                            spec_party_seed(mi, ivv, np as int, x),
                            ivv,
                            la,
                            q,
                        ),
                    acc == spec_r_shares_sum(mi, ivv, np as int, la, p as int, k2 as int),
                decreases np - p,
            {
                acc = acc.wrapping_add(r_shares[p][k2]);
                p = p + 1;
            }
            r_shares_sum.push(acc);
            k2 = k2 + 1;
        }
        let mut delta_rs: Vec<u64> = Vec::new();
        let mut k3: usize = 0;
        while k3 < n
            invariant
                k3 <= n,
                n == self.param.ssp_dimension,
                np == self.param.party_count,
                la == self.param.abort_param as int,
                rs@.len() == n,
                forall|q: int| 0 <= q < n ==> #[trigger] rs@[q] == spec_prg_bit(mi, ivv, q),
                r_shares_sum@.len() == n,
                forall|q: int|
                    0 <= q < n ==> #[trigger] r_shares_sum@[q] == spec_r_shares_sum(
                        mi,
                        ivv,
                        np as int,
                        la,
                        np as int,
                        q,
                    ),
                delta_rs@.len() == k3,
                forall|q: int|
                    0 <= q < k3 ==> #[trigger] delta_rs@[q] == spec_delta_r(
                        mi,
                        ivv,
                        np as int,
                        la,
                        q,
                    ),
            decreases n - k3,
        {
            delta_rs.push((rs[k3] as u64).wrapping_sub(r_shares_sum[k3]));
            k3 = k3 + 1;
        }
        let h1 = hash1(&delta_rs, &coms);
        proof {
            assert(delta_rs@ =~= spec_delta_seq(mi, ivv, self.param));
            assert(coms_views(coms@) =~= spec_coms_seq(mi, ivv, self.param));
        }
        ProverStateInner {
            mseed_inner: copy_bytes(mseed_inner),
            rs,
            seeds,
            rhos,
            r_shares,
            coms,
            r_shares_sum,
            delta_rs,
            h1,
        }
    }

    /// Run step 1: expand the master seed into one inner seed per repetition,
    /// build every repetition's record, and hash the first-round digests into
    /// the transcript digest.
    pub fn step1(&self) -> (r: ProverState)
        requires
            self.wf(),
        ensures
            step1_matches(*self, r),
            r.wf(self.param),
    {
        let m = self.param.cnc_param;
        let ghost mseedv = self.mseed@;
        let ghost ivv = self.iv@;
        let mseeds_inner = prg_tree(&self.mseed, &self.iv, m);
        let mut state = ProverState::new();
        let mut h1s: Vec<Vec<u8>> = Vec::new();
        let mut e: usize = 0;
        while e < m
            invariant
                e <= m,
                m == self.param.cnc_param,
                self.wf(),
                mseedv == self.mseed@,
                ivv == self.iv@,
                mseeds_inner@.len() == m,
                forall|j: int|
                    0 <= j < m ==> (#[trigger] mseeds_inner@[j])@ == tree_node(
                        mseedv,
                        ivv,
                        (m - 1 + j) as nat,
                    ) && mseeds_inner@[j]@.len() == BLOCK_SIZE,
                state.step1_state@.len() == e,
                forall|x: int|
                    0 <= x < e ==> inner_matches(
                        #[trigger] state.step1_state@[x],
                        spec_mseed_inner(mseedv, ivv, m as int, x),
                        ivv,
                        self.param,
                    ),
                h1s@.len() == e,
                forall|x: int|
                    0 <= x < e ==> (#[trigger] h1s@[x])@ == spec_h1(
                        spec_mseed_inner(mseedv, ivv, m as int, x),
                        ivv,
                        self.param,
                    ),
            decreases m - e,
        {
            let inner = self.step1_repetition(&mseeds_inner[e]);
            h1s.push(copy_bytes(&inner.h1));
            state.push_inner(inner);
            e = e + 1;
        }
        let h = hash2(&h1s);
        proof {
            assert(vec_views(h1s@) =~= spec_h1s_seq(mseedv, ivv, self.param));
        }
        state.set_h(h);
        proof {
            assert forall|x: int, k: int|
                0 <= x < m && 0 <= k < self.param.ssp_dimension implies #[trigger] state
                .step1_state@[x].rs@[k] <= 1 by {
                crate::prg::lemma_prg_bit_binary(
                    spec_mseed_inner(mseedv, ivv, m as int, x),
                    ivv,
                    k,
                );
            }
        }
        state
    }

    /// Run step 2: for every challenged repetition, mask the witness with the
    /// stored bits, recompute every party's output share, hash them, and
    /// aggregate; reveal the inner seeds of the repetitions NOT in J.
    pub fn step2(&self, state: &ProverState, chal_j: &Vec<usize>) -> (r: Result<
        (Vec<u8>, Vec<Vec<u8>>),
        InternalError,
    >)
        requires
            self.wf(),
            self.witness.is_binary(),
            state.wf(self.param),
        ensures
            chal_j@.len() != self.param.rep_param ==> r == Err::<
                (Vec<u8>, Vec<Vec<u8>>),
                InternalError,
            >(InternalError::BadChallengeLength),
            chal_j@.len() == self.param.rep_param && (exists|j: int|
                0 <= j < chal_j@.len() && #[trigger] chal_j@[j] >= self.param.cnc_param) ==> r
                == Err::<(Vec<u8>, Vec<Vec<u8>>), InternalError>(InternalError::BadChallengeLength),
            chal_j@.len() == self.param.rep_param && (forall|j: int|
                0 <= j < chal_j@.len() ==> #[trigger] chal_j@[j] < self.param.cnc_param) ==> (
            r matches Ok(p) && p.0@ == spec_h_prime(self.witness.0@, self.instance.weights@, *state, chal_j@)
                && vec_views(p.1@) == spec_revealed_mseeds(*state, chal_j@, self.param.cnc_param as int)),
    {
        if chal_j.len() != self.param.rep_param {
            return Err(InternalError::BadChallengeLength);
        }
        let mut idx: usize = 0;
        while idx < chal_j.len()
            invariant
                idx <= chal_j@.len(),
                forall|j: int| 0 <= j < idx ==> #[trigger] chal_j@[j] < self.param.cnc_param,
            decreases chal_j@.len() - idx,
        {
            if chal_j[idx] >= self.param.cnc_param {
                return Err(InternalError::BadChallengeLength);
            }
            idx = idx + 1;
        }
        let n = self.param.ssp_dimension;
        let np = self.param.party_count;
        let tau = self.param.rep_param;
        let m = self.param.cnc_param;
        let ghost wv = self.witness.0@;
        let ghost wts = self.instance.weights@;
        let mut h3s: Vec<Vec<u8>> = Vec::new();
        let mut j: usize = 0;
        while j < tau
            invariant
                j <= tau,
                tau == self.param.rep_param,
                n == self.param.ssp_dimension,
                np == self.param.party_count,
                m == self.param.cnc_param,
                self.wf(),
                self.witness.is_binary(),
                wv == self.witness.0@,
                wts == self.instance.weights@,
                state.wf(self.param),
                chal_j@.len() == tau,
                forall|x: int| 0 <= x < tau ==> #[trigger] chal_j@[x] < m,
                h3s@.len() == j,
                forall|x: int|
                    0 <= x < j ==> (#[trigger] h3s@[x])@ == spec_h3_rep(
                        wv,
                        wts,
                        state.step1_state@[chal_j@[x] as int],
                    ),
            decreases tau - j,
        {
            let e = chal_j[j];
            let inner = &state.step1_state[e];
            let ghost xs_spec = spec_xs_tilde(wv, inner.rs@);
            let mut xs: Vec<u8> = Vec::new();
            let mut k: usize = 0;
            while k < n
                invariant
                    k <= n,
                    n == self.param.ssp_dimension,
                    self.wf(),
                    self.witness.is_binary(),
                    wv == self.witness.0@,
                    wv.len() == n,
                    inner.rs@.len() == n,
                    forall|q: int| 0 <= q < n ==> #[trigger] inner.rs@[q] <= 1,
                    xs_spec == spec_xs_tilde(wv, inner.rs@),
                    xs@.len() == k,
                    forall|q: int| 0 <= q < k ==> #[trigger] xs@[q] == xs_spec[q],
                    forall|q: int| 0 <= q < k ==> #[trigger] xs@[q] <= 1,
                decreases n - k,
            {
                let a = self.witness.0[k];
                let b = inner.rs[k];
                let x = a ^ b;
                proof {
                    assert(a <= 1 && b <= 1 ==> (a ^ b) <= 1) by (bit_vector);
                }
                xs.push(x);
                k = k + 1;
            }
            proof {
                assert(xs@ =~= xs_spec);
            }
            let mut ts: Vec<u64> = Vec::new();
            let mut i: usize = 0;
            while i < np
                invariant
                    i <= np,
                    n == self.param.ssp_dimension,
                    np == self.param.party_count,
                    wts == self.instance.weights@,
                    wts.len() == n,
                    self.instance.weights@.len() == n,
                    self.wf(),
                    inner.r_shares@.len() == np,
                    forall|x: int| 0 <= x < np ==> (#[trigger] inner.r_shares@[x])@.len() == n,
                    xs@.len() == n,
                    forall|q: int| 0 <= q < n ==> #[trigger] xs@[q] <= 1,
                    ts@.len() == i,
                    forall|x: int|
                        0 <= x < i ==> #[trigger] ts@[x] == spec_t_share(
                            wts,
                            xs@,
                            inner.r_shares@[x]@,
                            n as int,
                        ),
                decreases np - i,
            {
                let mut acc: u64 = 0;
                let mut k2: usize = 0;
                while k2 < n
                    invariant
                        k2 <= n,
                        i < np,
                        n == self.param.ssp_dimension,
                        np == self.param.party_count,
                        wts == self.instance.weights@,
                        wts.len() == n,
                        self.instance.weights@.len() == n,
                        inner.r_shares@.len() == np,
                        inner.r_shares@[i as int]@.len() == n,
                        xs@.len() == n,
                        forall|q: int| 0 <= q < n ==> #[trigger] xs@[q] <= 1,
                        acc == spec_t_share(wts, xs@, inner.r_shares@[i as int]@, k2 as int),
                    decreases n - k2,
                {
                    let xt = xs[k2];
                    let rk = inner.r_shares[i][k2];
                    let xsh = if xt == 0 {
                        rk
                    } else {
                        1u64.wrapping_sub(rk)
                    };
                    acc = acc.wrapping_add(self.instance.weights[k2].wrapping_mul(xsh));
                    k2 = k2 + 1;
                }
                ts.push(acc);
                i = i + 1;
            }
            let h3 = hash3(&xs, &ts);
            proof {
                assert(ts@ =~= Seq::new(
                    inner.r_shares@.len(),
                    |x: int| spec_t_share(wts, xs_spec, inner.r_shares@[x]@, wts.len() as int),
                ));
            }
            h3s.push(h3);
            j = j + 1;
        }
        let h_prime = hash4(&h3s);
        proof {
            assert(vec_views(h3s@) =~= Seq::new(
                chal_j@.len(),
                |x: int| spec_h3_rep(wv, wts, state.step1_state@[chal_j@[x] as int]),
            ));
        }
        let mut mseeds: Vec<Vec<u8>> = Vec::new();
        let mut e2: usize = 0;
        while e2 < m
            invariant
                e2 <= m,
                m == self.param.cnc_param,
                state.wf(self.param),
                state.step1_state@.len() == m,
                vec_views(mseeds@) == spec_revealed_mseeds(*state, chal_j@, e2 as int),
            decreases m - e2,
        {
            let ghost before = vec_views(mseeds@);
            if !contains_usize(chal_j, e2) {
                mseeds.push(copy_bytes(&state.step1_state[e2].mseed_inner));
                proof {
                    assert(vec_views(mseeds@) =~= before + seq![
                        state.step1_state@[e2 as int].mseed_inner@,
                    ]);
                }
            }
            e2 = e2 + 1;
        }
        Ok((h_prime, mseeds))
    }

    /// Response to the second challenge L.  The exact response structure is an
    /// open point of the underlying protocol, so nothing is produced yet.
    #[allow(unused_variables)]
    pub fn step3(&self, state: &ProverState, ells: &Vec<usize>) {
    }
}

// ---------------------------------------------------------------------------
// The spec-level model of step 2.
// ---------------------------------------------------------------------------

/// The masked witness: coordinate-wise XOR of the witness bytes with the
/// masking bits of one repetition.
pub open spec fn spec_xs_tilde(witness: Seq<u8>, rs: Seq<u8>) -> Seq<u8> {
    Seq::new(witness.len(), |k: int| witness[k] ^ rs[k])
}

/// One party's additive share of the masked coordinate `k`: for binary
/// `x_tilde` this is `(1 - x_tilde) * r + x_tilde * (1 - r)` modulo 2^64.
pub open spec fn spec_x_share(x_tilde: u8, r_share: u64) -> u64
    recommends
        x_tilde <= 1,
{
    if x_tilde == 0 {
        r_share
    } else {
        u64_specs::wrapping_sub(1u64, r_share)
    }
}

/// One party's share of the output: the inner product of the first `upto`
/// weights with its coordinate shares, wrapping modulo 2^64.
pub open spec fn spec_t_share(
    weights: Seq<u64>,
    xs_tilde: Seq<u8>,
    r_share: Seq<u64>,
    upto: int,
) -> u64
    decreases upto,
{
    if upto <= 0 {
        0u64
    } else {
        u64_specs::wrapping_add(
            spec_t_share(weights, xs_tilde, r_share, upto - 1),
            u64_specs::wrapping_mul(
                weights[upto - 1],
                spec_x_share(xs_tilde[upto - 1], r_share[upto - 1]),
            ),
        )
    }
}

/// The response digest of one repetition: the hash of the masked witness and
/// every party's output share.
pub open spec fn spec_h3_rep(witness: Seq<u8>, weights: Seq<u64>, inner: ProverStateInner) -> Seq<
    u8,
> {
    let xs = spec_xs_tilde(witness, inner.rs@);
    let ts = Seq::new(
        inner.r_shares@.len(),
        |i: int| spec_t_share(weights, xs, inner.r_shares@[i]@, weights.len() as int),
    );
    spec_sha3(spec_hash3_input(xs, ts))
}

/// The aggregated response digest over the challenged repetitions, in
/// challenge order.
pub open spec fn spec_h_prime(
    witness: Seq<u8>,
    weights: Seq<u64>,
    state: ProverState,
    chal: Seq<usize>,
) -> Seq<u8> {
    spec_sha3(
        spec_hash4_input(
            Seq::new(
                chal.len(),
                |j: int| spec_h3_rep(witness, weights, state.step1_state@[chal[j] as int]),
            ),
        ),
    )
}

/// The inner master seeds of the repetitions below `upto` that are NOT in the
/// challenge set, in increasing repetition order.
pub open spec fn spec_revealed_mseeds(state: ProverState, chal: Seq<usize>, upto: int) -> Seq<
    Seq<u8>,
>
    decreases upto,
{
    if upto <= 0 {
        Seq::empty()
    } else {
        let rest = spec_revealed_mseeds(state, chal, upto - 1);
        if chal.contains((upto - 1) as usize) {
            rest
        } else {
            rest + seq![state.step1_state@[upto - 1].mseed_inner@]
        }
    }
}

// ---------------------------------------------------------------------------
// Laws.
// ---------------------------------------------------------------------------

/// The opening bytes inside a sequence of openings.
pub open spec fn openings_views(s: Seq<Opening>) -> Seq<Seq<u8>> {
    s.map_values(|o: Opening| o.inner@)
}

/// The word sequences inside a sequence of share vectors.
pub open spec fn shares_views(s: Seq<Vec<u64>>) -> Seq<Seq<u64>> {
    s.map_values(|v: Vec<u64>| v@)
}

/// Byte-level equality of two repetition records, field by field.
pub open spec fn inner_views_eq(a: ProverStateInner, b: ProverStateInner) -> bool {
    &&& a.mseed_inner@ == b.mseed_inner@
    &&& a.rs@ == b.rs@
    &&& vec_views(a.seeds@) == vec_views(b.seeds@)
    &&& openings_views(a.rhos@) == openings_views(b.rhos@)
    &&& shares_views(a.r_shares@) == shares_views(b.r_shares@)
    &&& coms_views(a.coms@) == coms_views(b.coms@)
    &&& a.r_shares_sum@ == b.r_shares_sum@
    &&& a.delta_rs@ == b.delta_rs@
    &&& a.h1@ == b.h1@
}

/// Law (determinism of step 1): the retained state is a function of the
/// prover's witness, instance, master seed and parameters alone — any two
/// states satisfying step 1's contract for the same prover agree byte for
/// byte, in every field of every repetition, and in the transcript digest.
pub proof fn lemma_step1_deterministic(p: Prover, s1: ProverState, s2: ProverState)
    requires
        step1_matches(p, s1),
        step1_matches(p, s2),
    ensures
        s1.h@ == s2.h@,
        s1.step1_state@.len() == s2.step1_state@.len(),
        forall|e: int|
            0 <= e < s1.step1_state@.len() ==> inner_views_eq(
                #[trigger] s1.step1_state@[e],
                s2.step1_state@[e],
            ),
{
    assert forall|e: int| 0 <= e < s1.step1_state@.len() implies inner_views_eq(
        #[trigger] s1.step1_state@[e],
        s2.step1_state@[e],
    ) by {
        let a = s1.step1_state@[e];
        let b = s2.step1_state@[e];
        assert(a.rs@ =~= b.rs@);
        assert(vec_views(a.seeds@) =~= vec_views(b.seeds@));
        assert(openings_views(a.rhos@) =~= openings_views(b.rhos@));
        assert forall|i: int| 0 <= i < a.r_shares@.len() implies #[trigger] shares_views(
            a.r_shares@,
        )[i] == shares_views(b.r_shares@)[i] by {
            assert(a.r_shares@[i]@ =~= b.r_shares@[i]@);
        }
        assert(shares_views(a.r_shares@) =~= shares_views(b.r_shares@));
        assert(coms_views(a.coms@) =~= coms_views(b.coms@));
        assert(a.r_shares_sum@ =~= b.r_shares_sum@);
        assert(a.delta_rs@ =~= b.delta_rs@);
    }
}

/// The revealed seed list depends only on the stored seed bytes.
proof fn lemma_revealed_deterministic(s1: ProverState, s2: ProverState, chal: Seq<usize>, upto: int)
    requires
        s1.step1_state@.len() == s2.step1_state@.len(),
        upto <= s1.step1_state@.len(),
        forall|e: int|
            0 <= e < s1.step1_state@.len() ==> (#[trigger] s1.step1_state@[e]).mseed_inner@
                == s2.step1_state@[e].mseed_inner@,
    ensures
        spec_revealed_mseeds(s1, chal, upto) == spec_revealed_mseeds(s2, chal, upto),
    decreases upto,
{
    if upto > 0 {
        lemma_revealed_deterministic(s1, s2, chal, upto - 1);
    }
}

/// Law (determinism of step 2): for a fixed challenge, the step-2 outputs are
/// a function of the witness, the weights and the retained state's contents.
pub proof fn lemma_step2_deterministic(
    witness: Seq<u8>,
    weights: Seq<u64>,
    s1: ProverState,
    s2: ProverState,
    chal: Seq<usize>,
)
    requires
        s1.step1_state@.len() == s2.step1_state@.len(),
        forall|e: int|
            0 <= e < s1.step1_state@.len() ==> inner_views_eq(
                #[trigger] s1.step1_state@[e],
                s2.step1_state@[e],
            ),
        forall|j: int| 0 <= j < chal.len() ==> #[trigger] chal[j] < s1.step1_state@.len(),
    ensures
        spec_h_prime(witness, weights, s1, chal) == spec_h_prime(witness, weights, s2, chal),
        spec_revealed_mseeds(s1, chal, s1.step1_state@.len() as int) == spec_revealed_mseeds(
            s2,
            chal,
            s2.step1_state@.len() as int,
        ),
{
    assert forall|j: int| 0 <= j < chal.len() implies #[trigger] spec_h3_rep(
        witness,
        weights,
        s1.step1_state@[chal[j] as int],
    ) == spec_h3_rep(witness, weights, s2.step1_state@[chal[j] as int]) by {
        let a = s1.step1_state@[chal[j] as int];
        let b = s2.step1_state@[chal[j] as int];
        let xs = spec_xs_tilde(witness, a.rs@);
        assert(spec_xs_tilde(witness, b.rs@) == xs);
        assert(shares_views(a.r_shares@).len() == a.r_shares@.len());
        assert(shares_views(b.r_shares@).len() == b.r_shares@.len());
        assert(a.r_shares@.len() == b.r_shares@.len());
        assert forall|i: int| 0 <= i < a.r_shares@.len() implies spec_t_share(
            weights,
            xs,
            #[trigger] a.r_shares@[i]@,
            weights.len() as int,
        ) == spec_t_share(weights, xs, b.r_shares@[i]@, weights.len() as int) by {
            assert(a.r_shares@[i]@ == shares_views(a.r_shares@)[i]);
            assert(b.r_shares@[i]@ == shares_views(b.r_shares@)[i]);
        }
        assert(Seq::new(
            a.r_shares@.len(),
            |i: int| spec_t_share(weights, xs, a.r_shares@[i]@, weights.len() as int),
        ) =~= Seq::new(
            b.r_shares@.len(),
            |i: int| spec_t_share(weights, xs, b.r_shares@[i]@, weights.len() as int),
        ));
    }
    assert(Seq::new(
        chal.len(),
        |j: int| spec_h3_rep(witness, weights, s1.step1_state@[chal[j] as int]),
    ) =~= Seq::new(
        chal.len(),
        |j: int| spec_h3_rep(witness, weights, s2.step1_state@[chal[j] as int]),
    ));
    assert forall|e: int| 0 <= e < s1.step1_state@.len() implies (#[trigger] s1.step1_state@[e])
        .mseed_inner@ == s2.step1_state@[e].mseed_inner@ by {
        assert(inner_views_eq(s1.step1_state@[e], s2.step1_state@[e]));
    }
    lemma_revealed_deterministic(s1, s2, chal, s1.step1_state@.len() as int);
}

/// Law (share-sum consistency): in every repetition and coordinate, the
/// stored delta_r plus the stored share sum gives back the masking bit,
/// modulo 2^64.
pub proof fn lemma_share_sum_consistency(
    mi: Seq<u8>,
    iv: Seq<u8>,
    np: int,
    abort_param: int,
    k: int,
)
    ensures
        u64_specs::wrapping_add(
            spec_delta_r(mi, iv, np, abort_param, k),
            spec_r_shares_sum(mi, iv, np, abort_param, np, k),
        ) == spec_prg_bit(mi, iv, k) as u64,
{
}

/// Law (share reduction): every share drawn for a party is strictly below
/// 2^abort_param.
pub proof fn lemma_share_reduction(party_seed: Seq<u8>, iv: Seq<u8>, abort_param: int, k: int)
    requires
        0 <= abort_param < 64,
    ensures
        spec_r_share(party_seed, iv, abort_param, k) < (1u64 << (abort_param as u64)),
{
    let sh = abort_param as u64;
    assert(1u64 << sh > 0) by (bit_vector)
        requires
            sh < 64,
    ;
}

/// Law (share-sum consistency over the retained state): in every repetition,
/// the stored delta_r plus the stored share sum gives back the stored masking
/// bit, coordinate by coordinate, modulo 2^64.
pub proof fn lemma_state_share_sum_consistency(p: Prover, s: ProverState)
    requires
        step1_matches(p, s),
    ensures
        forall|e: int, k: int|
            0 <= e < s.step1_state@.len() && 0 <= k < p.param.ssp_dimension
                ==> u64_specs::wrapping_add(
                #[trigger] s.step1_state@[e].delta_rs@[k],
                s.step1_state@[e].r_shares_sum@[k],
            ) == s.step1_state@[e].rs@[k] as u64,
{
}

/// Law (share reduction over the retained state): every stored share of every
/// party in every repetition is strictly below 2^abort_param.
pub proof fn lemma_state_share_reduction(p: Prover, s: ProverState)
    requires
        p.param.abort_param < 64,
        step1_matches(p, s),
    ensures
        forall|e: int, i: int, k: int|
            0 <= e < s.step1_state@.len() && 0 <= i < p.param.party_count && 0 <= k
                < p.param.ssp_dimension ==> #[trigger] s.step1_state@[e].r_shares@[i]@[k] < (1u64
                << (p.param.abort_param as u64)),
{
    assert forall|e: int, i: int, k: int|
        0 <= e < s.step1_state@.len() && 0 <= i < p.param.party_count && 0 <= k
            < p.param.ssp_dimension implies #[trigger] s.step1_state@[e].r_shares@[i]@[k] < (1u64
        << (p.param.abort_param as u64)) by {
        let mi = spec_mseed_inner(p.mseed@, p.iv@, p.param.cnc_param as int, e);
        lemma_share_reduction(
            spec_party_seed(mi, p.iv@, p.param.party_count as int, i),
            p.iv@,
            p.param.abort_param as int,
            k,
        );
    }
}

/// Law (digest chain): the retained transcript digest is the hash of the
/// stored first-round digests, and each stored first-round digest is the hash
/// of the stored delta_rs and commitments.
pub proof fn lemma_digest_chain(p: Prover, s: ProverState)
    requires
        step1_matches(p, s),
    ensures
        s.h@ == spec_sha3(
            spec_hash2_input(
                Seq::new(s.step1_state@.len(), |e: int| s.step1_state@[e].h1@),
            ),
        ),
        forall|e: int|
            0 <= e < s.step1_state@.len() ==> (#[trigger] s.step1_state@[e]).h1@ == spec_sha3(
                spec_hash1_input(
                    s.step1_state@[e].delta_rs@,
                    coms_views(s.step1_state@[e].coms@),
                ),
            ),
{
    assert(Seq::new(s.step1_state@.len(), |e: int| s.step1_state@[e].h1@) =~= spec_h1s_seq(
        p.mseed@,
        p.iv@,
        p.param,
    ));
    assert forall|e: int| 0 <= e < s.step1_state@.len() implies (#[trigger] s.step1_state@[e]).h1@
        == spec_sha3(
        spec_hash1_input(s.step1_state@[e].delta_rs@, coms_views(s.step1_state@[e].coms@)),
    ) by {
        let mi = spec_mseed_inner(p.mseed@, p.iv@, p.param.cnc_param as int, e);
        let inner = s.step1_state@[e];
        assert(inner.delta_rs@ =~= spec_delta_seq(mi, p.iv@, p.param));
        assert(coms_views(inner.coms@) =~= spec_coms_seq(mi, p.iv@, p.param));
    }
}

// ---------------------------------------------------------------------------
// The interactive prover: a state machine fed one verifier message at a time.
// The surrounding driver owns the channels and the loop.
// ---------------------------------------------------------------------------

/// Where the interactive prover stands in the message exchange.
#[derive(Debug, Clone, Copy, PartialEq, Eq, Structural)]
pub enum ProverPhase {
    /// Step 1 has not run yet.
    Ready,
    /// Step 1 was sent; the challenge set J is expected.
    AwaitJ,
    /// Step 2 was sent; the challenge vector L is expected.
    AwaitL,
    /// The exchange is over.
    Done,
}

/// The prover side of the interactive protocol: the prover, its retained
/// step-1 state, and the phase of the exchange.
pub struct IProver {
    pub prover: Prover,
    pub state: Option<ProverState>,
    pub phase: ProverPhase,
}

impl IProver {
    /// A session is well-formed when its prover is, its witness is binary,
    /// and a retained state of the right shape exists in the waiting phases.
    pub open spec fn wf(self) -> bool {
        &&& self.prover.wf()
        &&& self.prover.witness.is_binary()
        &&& ((self.phase == ProverPhase::AwaitJ || self.phase == ProverPhase::AwaitL) ==> (
        self.state matches Some(s) && s.wf(self.prover.param)))
    }

    /// Create an interactive prover with a fresh random witness-instance pair.
    pub fn new(rng: &mut ChaCha20Rng, param: Param) -> (r: IProver)
        ensures
            r.prover.param == param,
            r.phase == ProverPhase::Ready,
            r.state is None,
            param.wf() ==> r.wf(),
    {
        IProver::from_prover(Prover::new(rng, param))
    }

    /// Wrap an existing prover into a session at its start.
    pub fn from_prover(prover: Prover) -> (r: IProver)
        ensures
            r.prover == prover,
            r.phase == ProverPhase::Ready,
            r.state is None,
    {
        IProver { prover, state: None, phase: ProverPhase::Ready }
    }

    /// Run step 1 and emit the first prover message.
    pub fn start(&mut self) -> (r: ProverMsg)
        requires
            old(self).wf(),
            old(self).phase == ProverPhase::Ready,
        ensures
            final(self).wf(),
            final(self).prover == old(self).prover,
            final(self).phase == ProverPhase::AwaitJ,
            final(self).state matches Some(s) && step1_matches(old(self).prover, s),
            r matches ProverMsg::Step1(h) && h@ == spec_h(
                old(self).prover.mseed@,
                old(self).prover.iv@,
                old(self).prover.param,
            ),
    {
        let st = self.prover.step1();
        let h = copy_bytes(&st.h);
        self.state = Some(st);
        self.phase = ProverPhase::AwaitJ;
        ProverMsg::Step1(h)
    }

    /// Feed one verifier message to the session.  A message of the wrong
    /// variant for the current phase fails with `ProtocolError` and leaves
    /// the session unchanged; a malformed challenge set fails with
    /// `BadChallengeLength`.
    pub fn on_verifier_msg(&mut self, msg: &VerifierMsg) -> (r: Result<
        Option<ProverMsg>,
        InternalError,
    >)
        requires
            old(self).wf(),
        ensures
            final(self).wf(),
            final(self).prover == old(self).prover,
            final(self).state == old(self).state,
            old(self).phase == ProverPhase::Ready ==> r == Err::<Option<ProverMsg>, InternalError>(
                InternalError::ProtocolError,
            ) && final(self).phase == old(self).phase,
            old(self).phase == ProverPhase::Done ==> r == Err::<Option<ProverMsg>, InternalError>(
                InternalError::ProtocolError,
            ) && final(self).phase == old(self).phase,
            old(self).phase == ProverPhase::AwaitJ ==> (msg matches VerifierMsg::Step2(_) ==> r
                == Err::<Option<ProverMsg>, InternalError>(InternalError::ProtocolError)
                && final(self).phase == old(self).phase),
            old(self).phase == ProverPhase::AwaitL ==> (msg matches VerifierMsg::Step1(_) ==> r
                == Err::<Option<ProverMsg>, InternalError>(InternalError::ProtocolError)
                && final(self).phase == old(self).phase),
            old(self).phase == ProverPhase::AwaitJ ==> (old(self).state matches Some(st) ==> (
            msg matches VerifierMsg::Step1(chal) ==> if chal@.len()
                == old(self).prover.param.rep_param && (forall|j: int|
                0 <= j < chal@.len() ==> #[trigger] chal@[j] < old(self).prover.param.cnc_param) {
                &&& r matches Ok(Some(ProverMsg::Step2(p)))
                &&& p.0@ == spec_h_prime(
                    old(self).prover.witness.0@,
                    old(self).prover.instance.weights@,
                    st,
                    chal@,
                )
                &&& vec_views(p.1@) == spec_revealed_mseeds(
                    st,
                    chal@,
                    old(self).prover.param.cnc_param as int,
                )
                &&& final(self).phase == ProverPhase::AwaitL
            } else {
                r == Err::<Option<ProverMsg>, InternalError>(InternalError::BadChallengeLength)
                    && final(self).phase == old(self).phase
            })),
            old(self).phase == ProverPhase::AwaitL ==> (msg matches VerifierMsg::Step2(ells) ==> r
                == Ok::<Option<ProverMsg>, InternalError>(None) && final(self).phase
                == ProverPhase::Done),
    {
        match self.phase {
            ProverPhase::Ready => Err(InternalError::ProtocolError),
            ProverPhase::Done => Err(InternalError::ProtocolError),
            ProverPhase::AwaitJ => {
                match msg {
                    VerifierMsg::Step1(chal) => {
                        match &self.state {
                            Some(st) => {
                                match self.prover.step2(st, chal) {
                                    Ok(p) => {
                                        self.phase = ProverPhase::AwaitL;
                                        Ok(Some(ProverMsg::Step2(p)))
                                    },
                                    Err(e) => Err(e),
                                }
                            },
                            None => Err(InternalError::ProtocolError),
                        }
                    },
                    VerifierMsg::Step2(_) => Err(InternalError::ProtocolError),
                }
            },
            ProverPhase::AwaitL => {
                match msg {
                    VerifierMsg::Step2(ells) => {
                        match &self.state {
                            Some(st) => {
                                self.prover.step3(st, ells);
                                self.phase = ProverPhase::Done;
                                Ok(None)
                            },
                            None => Err(InternalError::ProtocolError),
                        }
                    },
                    VerifierMsg::Step1(_) => Err(InternalError::ProtocolError),
                }
            },
        }
    }
}

} // verus!
