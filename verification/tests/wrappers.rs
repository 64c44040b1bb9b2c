//! Cross-checks of the randomness boundary, driven through public functions
//! and compared against the rand crates applied directly, plus the
//! interactive verifier session.

use rand_chacha::ChaChaRng;
use rand_core::RngCore;
use rand_core::SeedableRng;
use ssp_mpcith::challenger::{IVerifier, Verifier};
use ssp_mpcith::errors::InternalError;
use ssp_mpcith::{new_witness_instance, Param, ProverMsg, VerifierMsg};

#[test]
fn test_verifier_step2_draws_words() {
    // L is exactly the next tau ChaCha words reduced modulo N.
    let param = Param::default();
    let verifier = Verifier::new(param);
    let mut rng = ChaChaRng::from_seed([21u8; 32]);
    let chal_l = verifier.step2(&mut rng);

    let mut rng2 = ChaChaRng::from_seed([21u8; 32]);
    let expected: Vec<usize> = (0..24).map(|_| (rng2.next_u64() % 4) as usize).collect();
    assert_eq!(chal_l, expected);
}

#[test]
fn test_witness_instance_draws() {
    // The witness is the low bit of n freshly drawn bytes; the weights are
    // the next n ChaCha words.
    let param = Param::default();
    let mut rng = ChaChaRng::from_seed([22u8; 32]);
    let (witness, instance) = new_witness_instance(&mut rng, param);

    let mut rng2 = ChaChaRng::from_seed([22u8; 32]);
    let mut raw = vec![0u8; 128];
    rng2.fill_bytes(&mut raw);
    let expected_witness: Vec<u8> = raw.iter().map(|b| b % 2).collect();
    let expected_weights: Vec<u64> = (0..128).map(|_| rng2.next_u64()).collect();
    assert_eq!(witness.0, expected_witness);
    assert_eq!(instance.weights, expected_weights);
}

#[test]
fn test_iverifier_session() {
    let param = Param::default();
    let mut rng = ChaChaRng::from_entropy();
    let mut iverifier = IVerifier::new(Verifier::new(param));

    // A Step2 message before the digest is a protocol error.
    let early = iverifier.on_prover_msg(&mut rng, ProverMsg::Step2((vec![0u8; 32], vec![])));
    assert!(matches!(early, Err(InternalError::ProtocolError)));

    // The digest draws the challenge set J.
    let reply = iverifier.on_prover_msg(&mut rng, ProverMsg::Step1(vec![0u8; 32])).unwrap();
    match reply {
        VerifierMsg::Step1(chal) => {
            assert_eq!(chal.len(), 24);
            for &x in &chal {
                assert!(x < 100);
            }
        },
        VerifierMsg::Step2(_) => panic!("expected the challenge set J"),
    }

    // The response draws the challenge vector L and ends the exchange.
    let reply2 = iverifier
        .on_prover_msg(&mut rng, ProverMsg::Step2((vec![1u8; 32], vec![vec![0u8; 16]])))
        .unwrap();
    match reply2 {
        VerifierMsg::Step2(chal) => {
            assert_eq!(chal.len(), 24);
            for &x in &chal {
                assert!(x < 4);
            }
        },
        VerifierMsg::Step1(_) => panic!("expected the challenge vector L"),
    }
    assert!(iverifier.finish());
}
