//! Fixed sizes and the 8-byte ASCII domain-separation prefixes used by every
//! hash in the protocol.

use vstd::prelude::*;

verus! {

/// AES-128 key size in bytes.
pub const KEY_SIZE: usize = 16;

/// AES block size in bytes; also the size of every PRG seed and of the IV.
pub const BLOCK_SIZE: usize = 16;

/// Size in bytes of a commitment opening.
pub const OPENING_SIZE: usize = 16;

/// Size in bytes of a SHA3-256 digest.
pub const DIGEST_SIZE: usize = 32;

/// ASCII `delta_rs`: prefix for the delta_r part of the first-round hash.
pub const PREFIX_H1_DELTA: [u8; 8] = [0x64, 0x65, 0x6c, 0x74, 0x61, 0x5f, 0x72, 0x73];

/// ASCII `commitme`: prefix for the commitment part of the first-round hash.
pub const PREFIX_H1_COM: [u8; 8] = [0x63, 0x6f, 0x6d, 0x6d, 0x69, 0x74, 0x6d, 0x65];

/// ASCII `h1s-----`: prefix for the transcript digest over all h1 values.
pub const PREFIX_H2: [u8; 8] = [0x68, 0x31, 0x73, 0x2d, 0x2d, 0x2d, 0x2d, 0x2d];

/// ASCII `h3------`: prefix for the per-repetition response hash.
pub const PREFIX_H3: [u8; 8] = [0x68, 0x33, 0x2d, 0x2d, 0x2d, 0x2d, 0x2d, 0x2d];

/// ASCII `h4------`: prefix for the aggregated response hash.
pub const PREFIX_H4: [u8; 8] = [0x68, 0x34, 0x2d, 0x2d, 0x2d, 0x2d, 0x2d, 0x2d];

/// ASCII `witness-`: prefix for absorbing the witness into the IV hash.
pub const PREFIX_WITNESS: [u8; 8] = [0x77, 0x69, 0x74, 0x6e, 0x65, 0x73, 0x73, 0x2d];

/// ASCII `instance`: prefix for absorbing the instance into the IV hash.
pub const PREFIX_INSTANCE: [u8; 8] = [0x69, 0x6e, 0x73, 0x74, 0x61, 0x6e, 0x63, 0x65];

/// ASCII `fs1-----`: prefix for the first Fiat-Shamir challenge seed.
pub const PREFIX_FS_H1: [u8; 8] = [0x66, 0x73, 0x31, 0x2d, 0x2d, 0x2d, 0x2d, 0x2d];

/// ASCII `fs2-----`: prefix for the second Fiat-Shamir challenge seed.
pub const PREFIX_FS_H2: [u8; 8] = [0x66, 0x73, 0x32, 0x2d, 0x2d, 0x2d, 0x2d, 0x2d];

} // verus!
