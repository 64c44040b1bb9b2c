//! Domain-separated SHA3-256 hashing and the hash-based commitment scheme.
//!
//! Every hash absorbs one of the 8-byte prefixes from [`crate::consts`],
//! followed by length-prefixed data; variable-length inputs are preceded by
//! their length as 8 little-endian bytes, and all integers are absorbed
//! little-endian.  The exact absorbed byte string of each hash is pinned by a
//! spec-level input builder, so that two hashes collide only if their inputs
//! agree byte for byte.

use vstd::prelude::*;
use vstd::bytes::spec_u64_to_le_bytes;

use crate::consts::DIGEST_SIZE;
use crate::consts::OPENING_SIZE;
use crate::consts::PREFIX_FS_H1;
use crate::consts::PREFIX_FS_H2;
use crate::consts::PREFIX_H1_COM;
use crate::consts::PREFIX_H1_DELTA;
use crate::consts::PREFIX_H2;
use crate::consts::PREFIX_H3;
use crate::consts::PREFIX_H4;
use crate::util::append_block8;
use crate::util::append_bytes;
use crate::util::append_u64_le;
use crate::util::bytes_eq;
use sha3::Digest;
use sha3::Sha3_256;

verus! {

/// The 32-byte SHA3-256 digest of a byte string, named but not defined:
/// the digest of given bytes is whatever the SHA3 implementation returns,
/// and it depends on those bytes alone.
pub uninterp spec fn spec_sha3(input: Seq<u8>) -> Seq<u8>;

/// Relies on sha3::Sha3_256 (the FIPS 202 SHA3-256 function): the digest is
/// 32 bytes and is a function of the input bytes alone.
#[verifier::external_body]
pub(crate) fn sha3_256(input: &Vec<u8>) -> (r: Vec<u8>)
    ensures
        r@ == spec_sha3(input@),
        r@.len() == DIGEST_SIZE,
{
    Sha3_256::digest(input.as_slice()).as_slice().to_vec()
}

/// The concatenation of the 8-byte little-endian encodings of `xs`.
pub open spec fn le_concat(xs: Seq<u64>) -> Seq<u8>
    decreases xs.len(),
{
    if xs.len() == 0 {
        Seq::empty()
    } else {
        le_concat(xs.drop_last()) + spec_u64_to_le_bytes(xs.last())
    }
}

/// The concatenation of the byte strings in `xs`.
pub open spec fn bytes_concat(xs: Seq<Seq<u8>>) -> Seq<u8>
    decreases xs.len(),
{
    if xs.len() == 0 {
        Seq::empty()
    } else {
        bytes_concat(xs.drop_last()) + xs.last()
    }
}

/// Extending a prefix of `xs` by one element appends that element's encoding.
pub proof fn lemma_le_concat_step(xs: Seq<u64>, i: int)
    requires
        0 <= i < xs.len(),
    ensures
        le_concat(xs.subrange(0, i + 1)) == le_concat(xs.subrange(0, i)) + spec_u64_to_le_bytes(
            xs[i],
        ),
{
    assert(xs.subrange(0, i + 1).drop_last() =~= xs.subrange(0, i));
    assert(xs.subrange(0, i + 1).last() == xs[i]);
}

/// Extending a prefix of `xs` by one element appends that byte string.
pub proof fn lemma_bytes_concat_step(xs: Seq<Seq<u8>>, i: int)
    requires
        0 <= i < xs.len(),
    ensures
        bytes_concat(xs.subrange(0, i + 1)) == bytes_concat(xs.subrange(0, i)) + xs[i],
{
    assert(xs.subrange(0, i + 1).drop_last() =~= xs.subrange(0, i));
    assert(xs.subrange(0, i + 1).last() == xs[i]);
}

/// The byte strings inside a sequence of byte vectors.
pub open spec fn vec_views(s: Seq<Vec<u8>>) -> Seq<Seq<u8>> {
    s.map_values(|v: Vec<u8>| v@)
}

/// A hash-based opening of a commitment, created by the prover.
#[derive(Debug, PartialEq, Eq)]
pub struct Opening {
    pub inner: Vec<u8>,
}

impl Opening {
    /// An opening holds exactly `OPENING_SIZE` bytes.
    pub open spec fn wf(self) -> bool {
        self.inner@.len() == OPENING_SIZE
    }

    pub fn new(c: Vec<u8>) -> (r: Opening)
        ensures
            r.inner@ == c@,
    {
        Opening { inner: c }
    }
}

/// A hash-based commitment, created by the prover.
#[derive(Debug, PartialEq, Eq)]
pub struct Commitment {
    pub inner: Vec<u8>,
}

impl Commitment {
    /// A commitment holds exactly `DIGEST_SIZE` bytes.
    pub open spec fn wf(self) -> bool {
        self.inner@.len() == DIGEST_SIZE
    }

    pub fn new(c: Vec<u8>) -> (r: Commitment)
        ensures
            r.inner@ == c@,
    {
        Commitment { inner: c }
    }
}

/// The digest bodies of a sequence of commitments.
pub open spec fn coms_views(s: Seq<Commitment>) -> Seq<Seq<u8>> {
    s.map_values(|c: Commitment| c.inner@)
}

/// The bytes absorbed by the commitment hash: opening then value, unprefixed.
pub open spec fn spec_commit_input(opening: Seq<u8>, value: Seq<u8>) -> Seq<u8> {
    opening + value
}

/// The commitment to `value` under `opening`.
pub open spec fn spec_commitment(opening: Seq<u8>, value: Seq<u8>) -> Seq<u8> {
    spec_sha3(spec_commit_input(opening, value))
}

/// Commit to `value` under the randomness `opening`.
pub fn commit(value: &Vec<u8>, opening: &Opening) -> (r: Commitment)
    ensures
        r.inner@ == spec_commitment(opening.inner@, value@),
        r.wf(),
{
    let mut input: Vec<u8> = Vec::new();
    append_bytes(&mut input, &opening.inner);
    append_bytes(&mut input, value);
    proof {
        assert(input@ =~= spec_commit_input(opening.inner@, value@));
    }
    Commitment { inner: sha3_256(&input) }
}

/// Check a commitment by recomputing it.
pub fn verify(value: &Vec<u8>, opening: &Opening, commitment: &Commitment) -> (r: bool)
    ensures
        r == (commitment.inner@ == spec_commitment(opening.inner@, value@)),
{
    let actual = commit(value, opening);
    bytes_eq(&actual.inner, &commitment.inner)
}

/// Law: a commitment opens to the pair it was created from.  `commit` ensures
/// its result equals `spec_commitment(opening, value)`, and `verify` returns
/// exactly whether the presented digest equals that same value, so verifying
/// a fresh commitment against its own opening and value always succeeds.
pub proof fn lemma_commit_verify_roundtrip(c: Seq<u8>, opening: Seq<u8>, value: Seq<u8>)
    requires
        c == spec_commitment(opening, value),
    ensures
        (c == spec_commitment(opening, value)) == true,
{
}

/// Law (injective absorption): two commitment inputs with openings of equal
/// length coincide only when opening and value both coincide.  Commitments of
/// distinct pairs can therefore collide only through a SHA3 collision, which
/// is what binding reduces to.
pub proof fn lemma_commit_input_injective(o1: Seq<u8>, v1: Seq<u8>, o2: Seq<u8>, v2: Seq<u8>)
    requires
        o1.len() == o2.len(),
        spec_commit_input(o1, v1) == spec_commit_input(o2, v2),
    ensures
        o1 == o2,
        v1 == v2,
{
    let input = spec_commit_input(o1, v1);
    assert(o1 =~= input.subrange(0, o1.len() as int));
    assert(o2 =~= input.subrange(0, o2.len() as int));
    assert(v1 =~= input.subrange(o1.len() as int, input.len() as int));
    assert(v2 =~= input.subrange(o2.len() as int, input.len() as int));
}

/// The bytes absorbed by the first-round hash over `delta_rs` and the
/// per-party commitments.
pub open spec fn spec_hash1_input(delta_rs: Seq<u64>, coms: Seq<Seq<u8>>) -> Seq<u8> {
    PREFIX_H1_DELTA@ + spec_u64_to_le_bytes(delta_rs.len() as u64) + le_concat(delta_rs)
        + PREFIX_H1_COM@ + spec_u64_to_le_bytes(coms.len() as u64) + bytes_concat(coms)
}

/// First-round hash: absorbs the masked-bit deltas and the commitments of one
/// repetition.
pub fn hash1(delta_rs: &Vec<u64>, coms: &Vec<Commitment>) -> (r: Vec<u8>)
    ensures
        r@ == spec_sha3(spec_hash1_input(delta_rs@, coms_views(coms@))),
        r@.len() == DIGEST_SIZE,
{
    let mut input: Vec<u8> = Vec::new();
    append_block8(&mut input, &PREFIX_H1_DELTA);
    append_u64_le(&mut input, delta_rs.len() as u64);
    let ghost base1 = input@;
    let mut i: usize = 0;
    while i < delta_rs.len()
        invariant
            i <= delta_rs@.len(),
            input@ == base1 + le_concat(delta_rs@.subrange(0, i as int)),
        decreases delta_rs@.len() - i,
    {
        append_u64_le(&mut input, delta_rs[i]);
        proof {
            lemma_le_concat_step(delta_rs@, i as int);
        }
        i = i + 1;
    }
    proof {
        assert(delta_rs@.subrange(0, delta_rs@.len() as int) =~= delta_rs@);
    }
    append_block8(&mut input, &PREFIX_H1_COM);
    append_u64_le(&mut input, coms.len() as u64);
    let ghost base2 = input@;
    let ghost views = coms_views(coms@);
    let mut j: usize = 0;
    while j < coms.len()
        invariant
            j <= coms@.len(),
            views == coms_views(coms@),
            views.len() == coms@.len(),
            input@ == base2 + bytes_concat(views.subrange(0, j as int)),
        decreases coms@.len() - j,
    {
        append_bytes(&mut input, &coms[j].inner);
        proof {
            lemma_bytes_concat_step(views, j as int);
            assert(views[j as int] == coms@[j as int].inner@);
        }
        j = j + 1;
    }
    proof {
        assert(views.subrange(0, views.len() as int) =~= views);
        assert(input@ =~= spec_hash1_input(delta_rs@, coms_views(coms@)));
    }
    sha3_256(&input)
}

/// The bytes absorbed by the transcript hash over all first-round digests.
pub open spec fn spec_hash2_input(h1s: Seq<Seq<u8>>) -> Seq<u8> {
    PREFIX_H2@ + spec_u64_to_le_bytes(h1s.len() as u64) + bytes_concat(h1s)
}

/// Transcript hash: absorbs the first-round digest of every repetition.
pub fn hash2(h1s: &Vec<Vec<u8>>) -> (r: Vec<u8>)
    ensures
        r@ == spec_sha3(spec_hash2_input(vec_views(h1s@))),
        r@.len() == DIGEST_SIZE,
{
    let mut input: Vec<u8> = Vec::new();
    append_block8(&mut input, &PREFIX_H2);
    append_u64_le(&mut input, h1s.len() as u64);
    let ghost base = input@;
    let ghost views = vec_views(h1s@);
    let mut i: usize = 0;
    while i < h1s.len()
        invariant
            i <= h1s@.len(),
            views == vec_views(h1s@),
            views.len() == h1s@.len(),
            input@ == base + bytes_concat(views.subrange(0, i as int)),
        decreases h1s@.len() - i,
    {
        append_bytes(&mut input, &h1s[i]);
        proof {
            lemma_bytes_concat_step(views, i as int);
            assert(views[i as int] == h1s@[i as int]@);
        }
        i = i + 1;
    }
    proof {
        assert(views.subrange(0, views.len() as int) =~= views);
        assert(input@ =~= spec_hash2_input(vec_views(h1s@)));
    }
    sha3_256(&input)
}

/// The bytes absorbed by the per-repetition response hash.  The count of
/// `t_shares` is deliberately not absorbed: it is fixed by the party count.
pub open spec fn spec_hash3_input(rs_tilde: Seq<u8>, t_shares: Seq<u64>) -> Seq<u8> {
    PREFIX_H3@ + spec_u64_to_le_bytes(rs_tilde.len() as u64) + rs_tilde + le_concat(t_shares)
}

/// Per-repetition response hash: absorbs the masked witness bits and the
/// per-party output shares.
pub fn hash3(rs_tilde: &Vec<u8>, t_shares: &Vec<u64>) -> (r: Vec<u8>)
    ensures
        r@ == spec_sha3(spec_hash3_input(rs_tilde@, t_shares@)),
        r@.len() == DIGEST_SIZE,
{
    let mut input: Vec<u8> = Vec::new();
    append_block8(&mut input, &PREFIX_H3);
    append_u64_le(&mut input, rs_tilde.len() as u64);
    append_bytes(&mut input, rs_tilde);
    let ghost base = input@;
    let mut i: usize = 0;
    while i < t_shares.len()
        invariant
            i <= t_shares@.len(),
            input@ == base + le_concat(t_shares@.subrange(0, i as int)),
        decreases t_shares@.len() - i,
    {
        append_u64_le(&mut input, t_shares[i]);
        proof {
            lemma_le_concat_step(t_shares@, i as int);
        }
        i = i + 1;
    }
    proof {
        assert(t_shares@.subrange(0, t_shares@.len() as int) =~= t_shares@);
        assert(input@ =~= spec_hash3_input(rs_tilde@, t_shares@));
    }
    sha3_256(&input)
}

/// The bytes absorbed by the aggregated response hash; the count is fixed by
/// the challenge length, so no length is absorbed.
pub open spec fn spec_hash4_input(h3s: Seq<Seq<u8>>) -> Seq<u8> {
    PREFIX_H4@ + bytes_concat(h3s)
}

/// Aggregated response hash: absorbs the response digest of every challenged
/// repetition, in challenge order.
pub fn hash4(h3s: &Vec<Vec<u8>>) -> (r: Vec<u8>)
    ensures
        r@ == spec_sha3(spec_hash4_input(vec_views(h3s@))),
        r@.len() == DIGEST_SIZE,
{
    let mut input: Vec<u8> = Vec::new();
    append_block8(&mut input, &PREFIX_H4);
    let ghost base = input@;
    let ghost views = vec_views(h3s@);
    let mut i: usize = 0;
    while i < h3s.len()
        invariant
            i <= h3s@.len(),
            views == vec_views(h3s@),
            views.len() == h3s@.len(),
            input@ == base + bytes_concat(views.subrange(0, i as int)),
        decreases h3s@.len() - i,
    {
        append_bytes(&mut input, &h3s[i]);
        proof {
            lemma_bytes_concat_step(views, i as int);
            assert(views[i as int] == h3s@[i as int]@);
        }
        i = i + 1;
    }
    proof {
        assert(views.subrange(0, views.len() as int) =~= views);
        assert(input@ =~= spec_hash4_input(vec_views(h3s@)));
    }
    sha3_256(&input)
}

/// The bytes absorbed to derive the first Fiat-Shamir challenge seed.
pub open spec fn spec_fs1_input(h: Seq<u8>) -> Seq<u8> {
    PREFIX_FS_H1@ + h
}

/// First Fiat-Shamir hash: turns the transcript digest into an RNG seed for
/// the challenge set J.
pub fn fs_hash1(h: &Vec<u8>) -> (r: Vec<u8>)
    ensures
        r@ == spec_sha3(spec_fs1_input(h@)),
        r@.len() == DIGEST_SIZE,
{
    let mut input: Vec<u8> = Vec::new();
    append_block8(&mut input, &PREFIX_FS_H1);
    append_bytes(&mut input, h);
    proof {
        assert(input@ =~= spec_fs1_input(h@));
    }
    sha3_256(&input)
}

/// The bytes absorbed to derive the second Fiat-Shamir challenge seed.
pub open spec fn spec_fs2_input(h_prime: Seq<u8>, mseeds: Seq<Seq<u8>>) -> Seq<u8> {
    PREFIX_FS_H2@ + h_prime + spec_u64_to_le_bytes(mseeds.len() as u64) + bytes_concat(mseeds)
}

/// Second Fiat-Shamir hash: turns the second prover message into an RNG seed
/// for the challenge vector L.
pub fn fs_hash2(h_prime: &Vec<u8>, mseeds: &Vec<Vec<u8>>) -> (r: Vec<u8>)
    ensures
        r@ == spec_sha3(spec_fs2_input(h_prime@, vec_views(mseeds@))),
        r@.len() == DIGEST_SIZE,
{
    let mut input: Vec<u8> = Vec::new();
    append_block8(&mut input, &PREFIX_FS_H2);
    append_bytes(&mut input, h_prime);
    append_u64_le(&mut input, mseeds.len() as u64);
    let ghost base = input@;
    let ghost views = vec_views(mseeds@);
    let mut i: usize = 0;
    while i < mseeds.len()
        invariant
            i <= mseeds@.len(),
            views == vec_views(mseeds@),
            views.len() == mseeds@.len(),
            input@ == base + bytes_concat(views.subrange(0, i as int)),
        decreases mseeds@.len() - i,
    {
        append_bytes(&mut input, &mseeds[i]);
        proof {
            lemma_bytes_concat_step(views, i as int);
            assert(views[i as int] == mseeds@[i as int]@);
        }
        i = i + 1;
    }
    proof {
        assert(views.subrange(0, views.len() as int) =~= views);
        assert(input@ =~= spec_fs2_input(h_prime@, vec_views(mseeds@)));
    }
    sha3_256(&input)
}

} // verus!
