//! Tests of the prover, the verifier's challenge sampling, the interactive
//! session machines, and the non-interactive prover.

use rand_core::SeedableRng;
use rand_chacha::ChaChaRng;
use ssp_mpcith::challenger::Verifier;
use ssp_mpcith::errors::InternalError;
use ssp_mpcith::fiat_shamir::NIProver;
use ssp_mpcith::hashing::{hash1, hash2};
use ssp_mpcith::prover::{IProver, Prover};
use ssp_mpcith::{new_witness_instance, sanity_check, Param, ProverMsg, VerifierMsg};

#[test]
fn test_sanity_check() {
    let mut rng = ChaChaRng::from_entropy();
    let param = Param::default();
    let (witness, instance) = new_witness_instance(&mut rng, param);
    assert_eq!(sanity_check(&witness, &instance, param), Ok(()));

    let short_param = Param { ssp_dimension: 9, ..param };
    let (short_witness, short_instance) = new_witness_instance(&mut rng, short_param);
    assert_eq!(sanity_check(&short_witness, &short_instance, short_param), Ok(()));
    assert_eq!(
        sanity_check(&witness, &short_instance, short_param),
        Err(InternalError::BadWitnessLength)
    );
    assert_eq!(sanity_check(&witness, &instance, short_param), Err(InternalError::BadWitnessLength));

    let bad_param = Param { abort_param: 64, ..param };
    assert_eq!(sanity_check(&witness, &instance, bad_param), Err(InternalError::BadAbortParam));
}

#[test]
fn test_sanity_check_bad_target() {
    let mut rng = ChaChaRng::from_entropy();
    let param = Param::default();
    let (witness, mut instance) = new_witness_instance(&mut rng, param);
    instance.t = instance.t.wrapping_add(1);
    assert_eq!(
        sanity_check(&witness, &instance, param),
        Err(InternalError::BadWitnessOrInstance)
    );
}

#[test]
fn test_sanity_check_bad_instance_length() {
    // Witness of the right length, weights of the wrong one.
    let mut rng = ChaChaRng::from_entropy();
    let param = Param::default();
    let (witness, _) = new_witness_instance(&mut rng, param);
    let short_param = Param { ssp_dimension: 9, ..param };
    let (_, short_instance) = new_witness_instance(&mut rng, short_param);
    assert_eq!(
        sanity_check(&witness, &short_instance, param),
        Err(InternalError::BadInstanceLength)
    );
}

#[test]
fn test_step1_default_run() {
    // Fixed seed, default parameters: two runs agree byte for byte and retain
    // one record per repetition.
    let param = Param::default();
    let mut rng = ChaChaRng::from_seed([42u8; 32]);
    let prover = Prover::new(&mut rng, param);
    let s1 = prover.step1();
    let s2 = prover.step1();
    assert_eq!(s1.h, s2.h);
    assert_eq!(s1.step1_state.len(), 100);
    assert_eq!(s2.step1_state.len(), 100);
    for e in 0..100 {
        assert_eq!(s1.step1_state[e].rs, s2.step1_state[e].rs);
        assert_eq!(s1.step1_state[e].delta_rs, s2.step1_state[e].delta_rs);
        assert_eq!(s1.step1_state[e].h1, s2.step1_state[e].h1);
    }
}

#[test]
fn test_step2_deterministic() {
    let param = Param::default();
    let mut rng = ChaChaRng::from_seed([1u8; 32]);
    let prover = Prover::new(&mut rng, param);
    let state = prover.step1();
    let chal: Vec<usize> = (0..24).collect();
    let (hp1, ms1) = prover.step2(&state, &chal).unwrap();
    let (hp2, ms2) = prover.step2(&state, &chal).unwrap();
    assert_eq!(hp1, hp2);
    assert_eq!(ms1, ms2);
    // The complement of a 24-element challenge set leaves 76 revealed seeds.
    assert_eq!(ms1.len(), 76);
}

#[test]
fn test_step2_bad_challenge() {
    let param = Param::default();
    let mut rng = ChaChaRng::from_seed([2u8; 32]);
    let prover = Prover::new(&mut rng, param);
    let state = prover.step1();
    // Wrong length.
    let short: Vec<usize> = (0..5).collect();
    assert!(matches!(prover.step2(&state, &short), Err(InternalError::BadChallengeLength)));
    // Right length, index out of range.
    let mut out_of_range: Vec<usize> = (0..24).collect();
    out_of_range[3] = 100;
    assert!(matches!(
        prover.step2(&state, &out_of_range),
        Err(InternalError::BadChallengeLength)
    ));
}

#[test]
fn test_share_sum_consistency() {
    // In every repetition: delta_rs[k] + r_shares_sum[k] == rs[k] (mod 2^64).
    let param = Param::default();
    let mut rng = ChaChaRng::from_seed([3u8; 32]);
    let prover = Prover::new(&mut rng, param);
    let state = prover.step1();
    for inner in &state.step1_state {
        for k in 0..inner.delta_rs.len() {
            assert_eq!(
                inner.delta_rs[k].wrapping_add(inner.r_shares_sum[k]),
                inner.rs[k] as u64
            );
        }
    }
}

#[test]
fn test_share_reduction() {
    // Every stored share is below 2^abort_param.
    let param = Param::default();
    let bound = 1u64 << param.abort_param;
    let mut rng = ChaChaRng::from_seed([4u8; 32]);
    let prover = Prover::new(&mut rng, param);
    let state = prover.step1();
    for inner in &state.step1_state {
        for share in &inner.r_shares {
            for &x in share {
                assert!(x < bound);
            }
        }
    }
}

#[test]
fn test_digest_chain() {
    // h equals the hash of the stored h1 digests, and every h1 equals the
    // hash of the stored delta_rs and commitments.
    let param = Param::default();
    let mut rng = ChaChaRng::from_seed([5u8; 32]);
    let prover = Prover::new(&mut rng, param);
    let state = prover.step1();
    let mut h1s: Vec<Vec<u8>> = Vec::new();
    for inner in &state.step1_state {
        let recomputed = hash1(&inner.delta_rs, &inner.coms);
        assert_eq!(recomputed, inner.h1);
        h1s.push(inner.h1.clone());
    }
    assert_eq!(hash2(&h1s), state.h);
}

#[test]
fn test_verifier_sampling() {
    // J holds tau distinct indices below M; L holds tau indices below N.
    let param = Param::default();
    let verifier = Verifier::new(param);
    let mut rng = ChaChaRng::from_entropy();
    let chal_j = verifier.step1(&mut rng);
    assert_eq!(chal_j.len(), 24);
    for (i, &a) in chal_j.iter().enumerate() {
        assert!(a < 100);
        for &b in &chal_j[i + 1..] {
            assert_ne!(a, b);
        }
    }
    let chal_l = verifier.step2(&mut rng);
    assert_eq!(chal_l.len(), 24);
    for &x in &chal_l {
        assert!(x < 4);
    }
}

#[test]
fn test_verifier_step1_is_shuffle() {
    // The challenge set J is the prefix of a Fisher-Yates shuffle of [0, M),
    // exactly as the rand crate computes it from the same generator state.
    let param = Param::default();
    let verifier = Verifier::new(param);
    let mut rng = ChaChaRng::from_seed([8u8; 32]);
    let chal_j = verifier.step1(&mut rng);

    let mut rng2 = ChaChaRng::from_seed([8u8; 32]);
    let mut tmp: Vec<usize> = (0..100).collect();
    rand::seq::SliceRandom::shuffle(tmp.as_mut_slice(), &mut rng2);
    let expected: Vec<usize> = tmp.into_iter().take(24).collect();
    assert_eq!(chal_j, expected);
}

#[test]
fn test_iprover_wrong_chal1() {
    // A Step2 message while the challenge set J is expected is a protocol
    // error and does not advance the session.
    let param = Param::default();
    let mut rng = ChaChaRng::from_entropy();
    let mut iprover = IProver::new(&mut rng, param);
    let first = iprover.start();
    assert!(matches!(first, ProverMsg::Step1(_)));
    let res = iprover.on_verifier_msg(&VerifierMsg::Step2(vec![]));
    assert!(matches!(res, Err(InternalError::ProtocolError)));
}

#[test]
fn test_iprover_full_session() {
    let param = Param::default();
    let mut rng = ChaChaRng::from_entropy();
    let mut iprover = IProver::new(&mut rng, param);
    let first = iprover.start();
    let chal_j: Vec<usize> = (0..24).collect();
    let reply = iprover.on_verifier_msg(&VerifierMsg::Step1(chal_j)).unwrap();
    assert!(matches!(reply, Some(ProverMsg::Step2(_))));
    let fin = iprover.on_verifier_msg(&VerifierMsg::Step2(vec![0usize; 24])).unwrap();
    assert!(fin.is_none());
    // Any further message is a protocol error.
    let extra = iprover.on_verifier_msg(&VerifierMsg::Step2(vec![]));
    assert!(matches!(extra, Err(InternalError::ProtocolError)));
    let _ = first;
}

#[test]
fn test_fs() {
    let mut rng = ChaChaRng::from_entropy();
    let param = Param::default();
    let niprover = NIProver::new(&mut rng, param);
    let proof = niprover.prove().unwrap();
    let _ = proof;
}

#[test]
fn test_fs_deterministic() {
    // With a fixed generator seed the whole non-interactive proof is fixed.
    let param = Param::default();
    let mut rng1 = ChaChaRng::from_seed([9u8; 32]);
    let p1 = NIProver::new(&mut rng1, param).prove().unwrap();
    let mut rng2 = ChaChaRng::from_seed([9u8; 32]);
    let p2 = NIProver::new(&mut rng2, param).prove().unwrap();
    assert_eq!(p1.step1, p2.step1);
    assert_eq!(p1.step2, p2.step2);
}

#[test]
fn test_fs_challenge_derivation() {
    // The non-interactive prover derives J from the transcript digest: seed
    // the first challenge RNG with fs_hash1(h), shuffle [0, M) with it, keep
    // the first tau indices, and the proof's second message must be exactly
    // step2 under that challenge.
    let param = Param::default();
    let mut rng = ChaChaRng::from_seed([13u8; 32]);
    let ni = NIProver::new(&mut rng, param);

    let mut rng2 = ChaChaRng::from_seed([13u8; 32]);
    let prover = Prover::new(&mut rng2, param);
    let state = prover.step1();
    let fs1 = ssp_mpcith::hashing::fs_hash1(&state.h);
    let seed: [u8; 32] = fs1.as_slice().try_into().unwrap();
    let mut crng = ChaChaRng::from_seed(seed);
    let mut tmp: Vec<usize> = (0..100).collect();
    rand::seq::SliceRandom::shuffle(tmp.as_mut_slice(), &mut crng);
    let chal_j: Vec<usize> = tmp.into_iter().take(24).collect();
    let expected = prover.step2(&state, &chal_j).unwrap();

    let proof = ni.prove().unwrap();
    assert_eq!(proof.step1, state.h);
    assert_eq!(proof.step2, expected);
}
