//! Tests of the commitment scheme and the PRG family, including the literal
//! scenarios fixed by the protocol description.

use sha3::Digest;
use sha3::Sha3_256;
use ssp_mpcith::hashing::{commit, verify, Opening};
use ssp_mpcith::prg::{prg_aes_ctr, prg_bin, prg_double, prg_tree, prg_u64};

const KEY_SIZE: usize = 16;
const BLOCK_SIZE: usize = 16;
const OPENING_SIZE: usize = 16;

#[test]
fn test_commit() {
    let value = vec![0u8, 1, 2, 3];
    let opening = Opening::new(vec![1u8; OPENING_SIZE]);
    let commitment = commit(&value, &opening);
    assert!(verify(&value, &opening, &commitment));

    let bad_opening = Opening::new(vec![2u8; OPENING_SIZE]);
    assert!(!verify(&value, &bad_opening, &commitment));

    let bad_value = vec![0u8, 1, 2, 2];
    assert!(!verify(&bad_value, &opening, &commitment));
}

#[test]
fn test_commit_bytes() {
    // The commitment to a fixed (value, opening) pair is the SHA3-256 digest
    // of the opening bytes followed by the value bytes, with no prefixes.
    let value = vec![0u8, 1, 2, 3];
    let opening_bytes = vec![1u8; OPENING_SIZE];
    let opening = Opening::new(opening_bytes.clone());
    let commitment = commit(&value, &opening);

    let mut hasher = Sha3_256::new();
    hasher.update(&opening_bytes);
    hasher.update(&value);
    let expected = hasher.finalize();
    assert_eq!(commitment.inner.as_slice(), expected.as_slice());
}

#[test]
fn test_prg() {
    let seed = vec![0u8; KEY_SIZE];
    let iv = vec![0u8; BLOCK_SIZE];
    let out1 = prg_aes_ctr(&seed, &iv, 1);
    assert_eq!(out1.len(), 1);
    assert_eq!(out1[0].len(), BLOCK_SIZE);

    let out2 = prg_aes_ctr(&seed, &iv, 2);
    assert_eq!(out2.len(), 2);

    let seed2 = vec![1u8; KEY_SIZE];
    let out3 = prg_aes_ctr(&seed2, &iv, 1);
    assert_ne!(out1, out3);
}

#[test]
fn test_prg_keystream() {
    // The wrapper must produce exactly the AES-128-CTR (64-bit big-endian
    // counter) keystream that the cipher crates produce.
    let seed = vec![3u8; KEY_SIZE];
    let iv = vec![9u8; BLOCK_SIZE];
    let got = prg_aes_ctr(&seed, &iv, 3);

    let mut cipher: ctr::CtrCore<aes::Aes128, ctr::flavors::Ctr64BE> =
        aes::cipher::KeyIvInit::new_from_slices(seed.as_slice(), iv.as_slice()).unwrap();
    let mut blocks = vec![aes::cipher::Block::<aes::Aes128>::default(); 3];
    aes::cipher::StreamCipherCore::apply_keystream_blocks(&mut cipher, &mut blocks);
    for i in 0..3 {
        assert_eq!(got[i].as_slice(), blocks[i].as_slice());
    }
}

#[test]
fn test_prg_iv_matters() {
    // Same seed, different IV: different first block.
    let seed = vec![0u8; KEY_SIZE];
    let out_a = prg_aes_ctr(&seed, &vec![1u8; BLOCK_SIZE], 1);
    let out_b = prg_aes_ctr(&seed, &vec![0u8; BLOCK_SIZE], 1);
    assert_eq!(out_a.len(), 1);
    assert_ne!(out_a[0], out_b[0]);
}

#[test]
fn test_prg_u64() {
    let seed = vec![0u8; KEY_SIZE];
    let iv = vec![0u8; BLOCK_SIZE];
    let out1 = prg_u64(&seed, &iv, 1);
    assert_eq!(out1.len(), 1);

    let out2 = prg_u64(&seed, &iv, 8);
    assert_eq!(out2.len(), 8);
}

#[test]
fn test_prg_u64_packed() {
    // The u64 view packs two little-endian words per 16-byte block.
    let seed = vec![5u8; KEY_SIZE];
    let iv = vec![6u8; BLOCK_SIZE];
    let blocks = prg_aes_ctr(&seed, &iv, 2);
    let words = prg_u64(&seed, &iv, 3);
    let w0 = u64::from_le_bytes(blocks[0][0..8].try_into().unwrap());
    let w1 = u64::from_le_bytes(blocks[0][8..16].try_into().unwrap());
    let w2 = u64::from_le_bytes(blocks[1][0..8].try_into().unwrap());
    assert_eq!(words, vec![w0, w1, w2]);
}

#[test]
fn test_prg_bin() {
    let seed = vec![0u8; KEY_SIZE];
    let iv = vec![0u8; BLOCK_SIZE];

    let out1 = prg_bin(&seed, &iv, 1);
    assert_eq!(out1.len(), 1);
    assert!(out1[0] == 0 || out1[0] == 1);

    let out2 = prg_bin(&seed, &iv, BLOCK_SIZE * 8);
    assert_eq!(out2.len(), BLOCK_SIZE * 8);
    for b in out2 {
        assert!(b == 0 || b == 1);
    }
}

#[test]
fn test_prg_bin_bits() {
    // Bits come from the keystream bytes in order, least-significant first.
    let seed = vec![2u8; KEY_SIZE];
    let iv = vec![4u8; BLOCK_SIZE];
    let blocks = prg_aes_ctr(&seed, &iv, 1);
    let bits = prg_bin(&seed, &iv, 16);
    for i in 0..16 {
        let byte = blocks[0][i / 8];
        assert_eq!(bits[i], (byte >> (i % 8)) & 1);
    }
}

#[test]
fn test_prg_tree() {
    let seed = vec![0u8; KEY_SIZE];
    let iv = vec![0u8; BLOCK_SIZE];
    let out = prg_tree(&seed, &iv, 2);
    assert_eq!(out.len(), 2);
    assert_eq!(out[0].len(), BLOCK_SIZE);
    assert_eq!(out[1].len(), BLOCK_SIZE);
    assert_ne!(out[0], out[1]);
}

#[test]
fn test_prg_tree_single() {
    // A tree of size one is the seed itself.
    let seed = vec![7u8; KEY_SIZE];
    let iv = vec![0u8; BLOCK_SIZE];
    let out = prg_tree(&seed, &iv, 1);
    assert_eq!(out.len(), 1);
    assert_eq!(out[0], seed);
}

#[test]
fn test_prg_tree_pair() {
    // A tree of size two is exactly the two blocks of the length-doubling PRG.
    let seed = vec![0u8; KEY_SIZE];
    let iv = vec![0u8; BLOCK_SIZE];
    let out = prg_tree(&seed, &iv, 2);
    let (left, right) = prg_double(&seed, &iv);
    assert_eq!(out[0], left);
    assert_eq!(out[1], right);
    let blocks = prg_aes_ctr(&seed, &iv, 2);
    assert_eq!(out[0], blocks[0]);
    assert_eq!(out[1], blocks[1]);
    assert_ne!(out[0], out[1]);
}

#[test]
fn test_prg_tree_seed_matters() {
    let iv = vec![0u8; BLOCK_SIZE];
    let out_a = prg_tree(&vec![0u8; KEY_SIZE], &iv, 4);
    let out_b = prg_tree(&vec![1u8; KEY_SIZE], &iv, 4);
    assert_ne!(out_a, out_b);
}
