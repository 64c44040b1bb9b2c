//! Byte-exact layout tests: every domain-separated hash must absorb its
//! 8-byte ASCII prefix and its length-prefixed fields exactly as documented,
//! checked against the SHA3 crate driven directly.

use sha3::Digest;
use sha3::Sha3_256;
use ssp_mpcith::hashing::{fs_hash1, fs_hash2, hash1, hash2, hash3, hash4, Commitment};
use ssp_mpcith::{hash_witness_instance, Instance, Witness};

#[test]
fn test_hash1_layout() {
    let delta_rs = vec![1u64, 0xdead_beef_0000_0001];
    let coms = vec![Commitment::new(vec![7u8; 32]), Commitment::new(vec![9u8; 32])];
    let got = hash1(&delta_rs, &coms);

    let mut hasher = Sha3_256::new();
    hasher.update(b"delta_rs");
    hasher.update(&2u64.to_le_bytes());
    hasher.update(&1u64.to_le_bytes());
    hasher.update(&0xdead_beef_0000_0001u64.to_le_bytes());
    hasher.update(b"commitme");
    hasher.update(&2u64.to_le_bytes());
    hasher.update(&[7u8; 32]);
    hasher.update(&[9u8; 32]);
    assert_eq!(got.as_slice(), hasher.finalize().as_slice());
}

#[test]
fn test_hash2_layout() {
    let h1s = vec![vec![3u8; 32], vec![4u8; 32], vec![5u8; 32]];
    let got = hash2(&h1s);

    let mut hasher = Sha3_256::new();
    hasher.update(b"h1s-----");
    hasher.update(&3u64.to_le_bytes());
    hasher.update(&[3u8; 32]);
    hasher.update(&[4u8; 32]);
    hasher.update(&[5u8; 32]);
    assert_eq!(got.as_slice(), hasher.finalize().as_slice());
}

#[test]
fn test_hash3_layout() {
    // The count of t_shares is deliberately not absorbed.
    let xs_tilde = vec![0u8, 1, 1, 0];
    let t_shares = vec![11u64, 22];
    let got = hash3(&xs_tilde, &t_shares);

    let mut hasher = Sha3_256::new();
    hasher.update(b"h3------");
    hasher.update(&4u64.to_le_bytes());
    hasher.update(&[0u8, 1, 1, 0]);
    hasher.update(&11u64.to_le_bytes());
    hasher.update(&22u64.to_le_bytes());
    assert_eq!(got.as_slice(), hasher.finalize().as_slice());
}

#[test]
fn test_hash4_layout() {
    // No count is absorbed: the challenge length fixes it.
    let h3s = vec![vec![8u8; 32], vec![6u8; 32]];
    let got = hash4(&h3s);

    let mut hasher = Sha3_256::new();
    hasher.update(b"h4------");
    hasher.update(&[8u8; 32]);
    hasher.update(&[6u8; 32]);
    assert_eq!(got.as_slice(), hasher.finalize().as_slice());
}

#[test]
fn test_fs_hash_layouts() {
    // The two Fiat-Shamir hashes use distinct prefixes.
    let h = vec![1u8; 32];
    let got1 = fs_hash1(&h);
    let mut hasher = Sha3_256::new();
    hasher.update(b"fs1-----");
    hasher.update(&[1u8; 32]);
    assert_eq!(got1.as_slice(), hasher.finalize().as_slice());

    let h_prime = vec![2u8; 32];
    let mseeds = vec![vec![3u8; 16], vec![4u8; 16]];
    let got2 = fs_hash2(&h_prime, &mseeds);
    let mut hasher2 = Sha3_256::new();
    hasher2.update(b"fs2-----");
    hasher2.update(&[2u8; 32]);
    hasher2.update(&2u64.to_le_bytes());
    hasher2.update(&[3u8; 16]);
    hasher2.update(&[4u8; 16]);
    assert_eq!(got2.as_slice(), hasher2.finalize().as_slice());

    assert_ne!(fs_hash1(&h), fs_hash2(&h, &vec![]));
}

#[test]
fn test_iv_layout() {
    // The IV is the first 16 bytes of the hash over witness and instance.
    let witness = Witness(vec![1u8, 0, 1]);
    let instance = Instance { weights: vec![10u64, 20, 30], t: 40 };
    let got = hash_witness_instance(&witness, &instance);

    let mut hasher = Sha3_256::new();
    hasher.update(b"witness-");
    hasher.update(&3u64.to_le_bytes());
    hasher.update(&[1u8, 0, 1]);
    hasher.update(b"instance");
    hasher.update(&3u64.to_le_bytes());
    hasher.update(&10u64.to_le_bytes());
    hasher.update(&20u64.to_le_bytes());
    hasher.update(&30u64.to_le_bytes());
    hasher.update(&40u64.to_le_bytes());
    let digest = hasher.finalize();
    assert_eq!(got.len(), 16);
    assert_eq!(got.as_slice(), &digest.as_slice()[..16]);
}
