//! AES-128-CTR pseudorandom generators: raw 16-byte blocks, little-endian
//! 64-bit words, single bits, and a breadth-first GGM binary-tree expansion.
//!
//! All generators are keyed by a 16-byte seed and a 16-byte IV; the cipher
//! runs in counter mode with a 64-bit big-endian counter, so keystream block
//! `i` is a pure function of `(seed, iv, i)`.

use vstd::prelude::*;
use vstd::bytes::spec_u64_from_le_bytes;
use vstd::bytes::u64_from_le_bytes;
use vstd::slice::slice_subrange;

use crate::consts::BLOCK_SIZE;
use crate::util::copy_bytes;
use aes::cipher::KeyIvInit;
use aes::cipher::StreamCipherCore;

verus! {

/// Keystream block `i` of AES-128-CTR under `(seed, iv)`, named but not
/// defined: whatever the cipher produces, it depends on these three arguments
/// alone.
pub uninterp spec fn spec_aes_ctr_block(seed: Seq<u8>, iv: Seq<u8>, i: int) -> Seq<u8>;

/// Relies on ctr::CtrCore<aes::Aes128, ctr::flavors::Ctr64BE> (AES-128 in
/// counter mode, 64-bit big-endian counter seeded from the IV): the keystream
/// is a sequence of 16-byte blocks determined by the key, the IV and the
/// block index alone.
#[verifier::external_body]
pub fn prg_aes_ctr(seed: &Vec<u8>, iv: &Vec<u8>, block_count: usize) -> (r: Vec<Vec<u8>>)
    requires
        seed@.len() == BLOCK_SIZE,
        iv@.len() == BLOCK_SIZE,
    ensures
        r@.len() == block_count,
        forall|i: int|
            0 <= i < block_count ==> (#[trigger] r@[i])@ == spec_aes_ctr_block(seed@, iv@, i)
                && r@[i]@.len() == BLOCK_SIZE,
{
    let mut cipher: ctr::CtrCore<aes::Aes128, ctr::flavors::Ctr64BE> =
        KeyIvInit::new_from_slices(seed.as_slice(), iv.as_slice()).unwrap();
    let mut blocks = vec![aes::cipher::Block::<aes::Aes128>::default(); block_count];
    StreamCipherCore::apply_keystream_blocks(&mut cipher, &mut blocks);
    blocks.into_iter().map(|b| b.as_slice().to_vec()).collect()
}

/// Word `k` of the packed little-endian u64 view of the keystream: two words
/// per 16-byte block, back to back.
pub open spec fn spec_prg_u64(seed: Seq<u8>, iv: Seq<u8>, k: int) -> u64 {
    spec_u64_from_le_bytes(
        spec_aes_ctr_block(seed, iv, k / 2).subrange((k % 2) * 8, (k % 2) * 8 + 8),
    )
}

/// Generate `n` pseudorandom u64 words: `(n + 1) / 2` keystream blocks,
/// each read as two little-endian u64 values.
pub fn prg_u64(seed: &Vec<u8>, iv: &Vec<u8>, n: usize) -> (r: Vec<u64>)
    requires
        seed@.len() == BLOCK_SIZE,
        iv@.len() == BLOCK_SIZE,
    ensures
        r@.len() == n,
        forall|k: int| 0 <= k < n ==> #[trigger] r@[k] == spec_prg_u64(seed@, iv@, k),
{
    let block_count = n / 2 + n % 2;
    let blocks = prg_aes_ctr(seed, iv, block_count);
    let mut out: Vec<u64> = Vec::new();
    let mut k: usize = 0;
    while k < n
        invariant
            k <= n,
            out@.len() == k,
            block_count == n / 2 + n % 2,
            blocks@.len() == block_count,
            forall|i: int|
                0 <= i < block_count ==> (#[trigger] blocks@[i])@ == spec_aes_ctr_block(
                    seed@,
                    iv@,
                    i,
                ) && blocks@[i]@.len() == BLOCK_SIZE,
            forall|j: int| 0 <= j < k ==> #[trigger] out@[j] == spec_prg_u64(seed@, iv@, j),
        decreases n - k,
    {
        proof {
            assert(k / 2 < n / 2 + n % 2) by (nonlinear_arith)
                requires
                    0 <= k < n,
            ;
        }
        let bi = k / 2;
        let off = (k % 2) * 8;
        let block = &blocks[bi];
        let word = u64_from_le_bytes(slice_subrange(block.as_slice(), off, off + 8));
        out.push(word);
        k = k + 1;
    }
    out
}

/// Bit `i` of the keystream, read from the blocks in index order, within each
/// block byte by byte, and within each byte least-significant bit first.
pub open spec fn spec_prg_bit(seed: Seq<u8>, iv: Seq<u8>, i: int) -> u8 {
    (spec_aes_ctr_block(seed, iv, i / 128)[(i % 128) / 8] >> ((i % 8) as u8)) & 1
}

/// Generate `n` pseudorandom bits, one per output byte, each 0 or 1.
pub fn prg_bin(seed: &Vec<u8>, iv: &Vec<u8>, n: usize) -> (r: Vec<u8>)
    requires
        seed@.len() == BLOCK_SIZE,
        iv@.len() == BLOCK_SIZE,
        n >= 1,
    ensures
        r@.len() == n,
        forall|i: int| 0 <= i < n ==> #[trigger] r@[i] == spec_prg_bit(seed@, iv@, i),
        forall|i: int| 0 <= i < n ==> #[trigger] r@[i] == 0 || r@[i] == 1,
{
    let block_count = n / 16 + 1;
    let blocks = prg_aes_ctr(seed, iv, block_count);
    let mut out: Vec<u8> = Vec::new();
    let mut i: usize = 0;
    while i < n
        invariant
            i <= n,
            out@.len() == i,
            block_count == n / 16 + 1,
            blocks@.len() == block_count,
            forall|b: int|
                0 <= b < block_count ==> (#[trigger] blocks@[b])@ == spec_aes_ctr_block(
                    seed@,
                    iv@,
                    b,
                ) && blocks@[b]@.len() == BLOCK_SIZE,
            forall|j: int| 0 <= j < i ==> #[trigger] out@[j] == spec_prg_bit(seed@, iv@, j),
            forall|j: int| 0 <= j < i ==> #[trigger] out@[j] == 0 || out@[j] == 1,
        decreases n - i,
    {
        proof {
            assert(i / 128 < n / 16 + 1) by (nonlinear_arith)
                requires
                    0 <= i < n,
            ;
            assert((i % 128) / 8 < 16) by (nonlinear_arith);
        }
        let b = i / 128;
        let byte_idx = (i % 128) / 8;
        let sh = (i % 8) as u8;
        let byte = blocks[b][byte_idx];
        let bit = (byte >> sh) & 1;
        proof {
            assert((byte >> sh) & 1 == 0 || (byte >> sh) & 1 == 1) by (bit_vector);
        }
        out.push(bit);
        i = i + 1;
    }
    out
}

/// Law: every byte emitted by the bit generator is 0 or 1.
pub proof fn lemma_prg_bit_binary(seed: Seq<u8>, iv: Seq<u8>, i: int)
    ensures
        spec_prg_bit(seed, iv, i) == 0 || spec_prg_bit(seed, iv, i) == 1,
{
    let byte = spec_aes_ctr_block(seed, iv, i / 128)[(i % 128) / 8];
    let sh = (i % 8) as u8;
    assert((byte >> sh) & 1 == 0 || (byte >> sh) & 1 == 1) by (bit_vector);
}

/// The length-doubling PRG: the first two keystream blocks under `(seed, iv)`.
pub fn prg_double(seed: &Vec<u8>, iv: &Vec<u8>) -> (r: (Vec<u8>, Vec<u8>))
    requires
        seed@.len() == BLOCK_SIZE,
        iv@.len() == BLOCK_SIZE,
    ensures
        r.0@ == spec_aes_ctr_block(seed@, iv@, 0),
        r.1@ == spec_aes_ctr_block(seed@, iv@, 1),
        r.0@.len() == BLOCK_SIZE,
        r.1@.len() == BLOCK_SIZE,
{
    let mut blocks = prg_aes_ctr(seed, iv, 2);
    let right = blocks.pop().unwrap();
    let left = blocks.pop().unwrap();
    (left, right)
}

/// Node `k` of the GGM tree rooted at `seed`, in heap numbering: node 0 is
/// the seed itself, and node `k >= 1` is keystream block `(k - 1) % 2` of the
/// cipher keyed by its parent, node `(k - 1) / 2`.
pub open spec fn tree_node(seed: Seq<u8>, iv: Seq<u8>, k: nat) -> Seq<u8>
    decreases k,
{
    if k == 0 {
        seed
    } else {
        spec_aes_ctr_block(tree_node(seed, iv, ((k - 1) / 2) as nat), iv, ((k - 1) as int) % 2)
    }
}

/// Law: a tree of size one returns the seed itself as its only leaf.
pub proof fn lemma_tree_single(seed: Seq<u8>, iv: Seq<u8>)
    ensures
        tree_node(seed, iv, 0) == seed,
{
}

/// Law: the two leaves of a tree of size two are exactly the two keystream
/// blocks of the length-doubling PRG applied to the seed.
pub proof fn lemma_tree_pair(seed: Seq<u8>, iv: Seq<u8>)
    ensures
        tree_node(seed, iv, 1) == spec_aes_ctr_block(seed, iv, 0),
        tree_node(seed, iv, 2) == spec_aes_ctr_block(seed, iv, 1),
{
    assert(tree_node(seed, iv, 0) == seed);
    assert(tree_node(seed, iv, 1) == spec_aes_ctr_block(tree_node(seed, iv, 0), iv, 0));
    assert(tree_node(seed, iv, 2) == spec_aes_ctr_block(tree_node(seed, iv, 0), iv, 1));
}

/// Expand `seed` into `n` blocks by breadth-first GGM tree expansion: a FIFO
/// queue starts as `[seed]`; while it holds fewer than `n` blocks, the head is
/// popped and its two children pushed.  The result is the final queue, which
/// in heap numbering holds nodes `n - 1` through `2n - 2`.
pub fn prg_tree(seed: &Vec<u8>, iv: &Vec<u8>, n: usize) -> (r: Vec<Vec<u8>>)
    requires
        seed@.len() == BLOCK_SIZE,
        iv@.len() == BLOCK_SIZE,
        n <= 0x4000_0000,
    ensures
        r@.len() == n,
        forall|j: int|
            0 <= j < n ==> (#[trigger] r@[j])@ == tree_node(seed@, iv@, (n - 1 + j) as nat)
                && r@[j]@.len() == BLOCK_SIZE,
{
    let mut nodes: Vec<Vec<u8>> = Vec::new();
    if n == 0 {
        return nodes;
    }
    nodes.push(copy_bytes(seed));
    let mut head: usize = 0;
    while nodes.len() - head < n
        invariant
            head <= nodes@.len(),
            nodes@.len() == 1 + 2 * head,
            nodes@.len() - head <= n,
            n <= 0x4000_0000,
            seed@.len() == BLOCK_SIZE,
            iv@.len() == BLOCK_SIZE,
            forall|k: int|
                0 <= k < nodes@.len() ==> (#[trigger] nodes@[k])@ == tree_node(
                    seed@,
                    iv@,
                    k as nat,
                ) && nodes@[k]@.len() == BLOCK_SIZE,
        decreases n - (nodes.len() - head),
    {
        let (left, right) = prg_double(&nodes[head], iv);
        proof {
            assert((2 * head + 1 - 1) as int / 2 == head as int);
            assert((2 * head + 2 - 1) as int / 2 == head as int);
            assert(tree_node(seed@, iv@, (2 * head + 1) as nat) == spec_aes_ctr_block(
                tree_node(seed@, iv@, head as nat),
                iv@,
                0,
            ));
            assert(tree_node(seed@, iv@, (2 * head + 2) as nat) == spec_aes_ctr_block(
                tree_node(seed@, iv@, head as nat),
                iv@,
                1,
            ));
        }
        nodes.push(left);
        nodes.push(right);
        head = head + 1;
    }
    let mut out: Vec<Vec<u8>> = Vec::new();
    let mut j: usize = 0;
    while j < n
        invariant
            j <= n,
            n <= 0x4000_0000,
            out@.len() == j,
            head + n == nodes@.len(),
            nodes@.len() == 1 + 2 * head,
            forall|k: int|
                0 <= k < nodes@.len() ==> (#[trigger] nodes@[k])@ == tree_node(
                    seed@,
                    iv@,
                    k as nat,
                ) && nodes@[k]@.len() == BLOCK_SIZE,
            forall|x: int|
                0 <= x < j ==> (#[trigger] out@[x])@ == tree_node(seed@, iv@, (head + x) as nat)
                    && out@[x]@.len() == BLOCK_SIZE,
        decreases n - j,
    {
        out.push(copy_bytes(&nodes[head + j]));
        j = j + 1;
    }
    proof {
        assert(head == n - 1);
    }
    out
}

} // verus!
