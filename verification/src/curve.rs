//! The boundary to the cryptographic subsystems: the BLS12-381 G1 group and
//! its scalar field (blstrs, through bls_bulletproofs), the Bulletproof
//! range-proof prover and verifier with its Merlin transcript, and SHA3.
//!
//! Points and scalars are carried as their canonical compressed encodings
//! inside [`GroupPoint`] and [`FieldScalar`]; every operation on them goes
//! through a trusted wrapper whose result is pinned to an uninterpreted name
//! of its argument bytes, so that everything around the wrappers is verified.
use vstd::prelude::*;

use bls_bulletproofs::blstrs::{G1Affine, G1Projective, Scalar};
use bls_bulletproofs::group::ff::Field;
use bls_bulletproofs::group::{Curve, Group};
use bls_bulletproofs::merlin::Transcript;
use bls_bulletproofs::rand::rngs::OsRng;
use bls_bulletproofs::rand::Rng;
use bls_bulletproofs::{BulletproofGens, PedersenGens, ProofError, RangeProof};
use tiny_keccak::{Hasher, Sha3};

use crate::Error;

verus! {

// ---------------------------------------------------------------------------
// Names for what the curve computes.  Each is a deterministic function of its
// argument bytes alone; the trusted wrappers below pin their results to them.
// ---------------------------------------------------------------------------
/// Whether 48 bytes are the compressed encoding of a point of the prime-order
/// group (`G1Affine::from_compressed` accepts them).
pub uninterp spec fn g1_valid(b: Seq<u8>) -> bool;

/// Whether 32 bytes are the canonical little-endian encoding of a scalar
/// (`Scalar::from_bytes_le` accepts them).
pub uninterp spec fn sc_valid(b: Seq<u8>) -> bool;

/// The compressed sum of two compressed points.
pub uninterp spec fn g1_add_of(a: Seq<u8>, b: Seq<u8>) -> Seq<u8>;

/// The compressed difference of two compressed points.
pub uninterp spec fn g1_sub_of(a: Seq<u8>, b: Seq<u8>) -> Seq<u8>;

/// The compressed scalar multiple of a compressed point.
pub uninterp spec fn g1_mul_of(s: Seq<u8>, p: Seq<u8>) -> Seq<u8>;

/// The compressed multiple of the fixed G1 generator.
pub uninterp spec fn g1_base_mul_of(s: Seq<u8>) -> Seq<u8>;

/// The compressed Pedersen commitment `v·G_v + b·G_b` under the fixed,
/// process-wide generator pair.
pub uninterp spec fn g1_commit_of(v: Seq<u8>, b: Seq<u8>) -> Seq<u8>;

/// The canonical encoding of the scalar with the given small value.
pub uninterp spec fn sc_of_u64(v: u64) -> Seq<u8>;

/// The canonical encoding of a sum in the scalar field.
pub uninterp spec fn sc_add_of(a: Seq<u8>, b: Seq<u8>) -> Seq<u8>;

/// The canonical encoding of a difference in the scalar field.
pub uninterp spec fn sc_sub_of(a: Seq<u8>, b: Seq<u8>) -> Seq<u8>;

/// The canonical encoding of a product in the scalar field.
pub uninterp spec fn sc_mul_of(a: Seq<u8>, b: Seq<u8>) -> Seq<u8>;

/// The 32-byte SHA3-256 digest of a byte string.
pub uninterp spec fn sha3_of(m: Seq<u8>) -> Seq<u8>;

// ---------------------------------------------------------------------------
// The two value types.
// ---------------------------------------------------------------------------
/// An element of the prime-order group, held as its 48-byte compressed
/// canonical encoding.  Two points are equal exactly when their encodings
/// are.
pub struct GroupPoint {
    bytes: Vec<u8>,
}

impl View for GroupPoint {
    type V = Seq<u8>;

    closed spec fn view(&self) -> Seq<u8> {
        self.bytes@
    }
}

impl GroupPoint {
    #[verifier::type_invariant]
    spec fn type_inv(self) -> bool {
        self.bytes@.len() == 48 && g1_valid(self.bytes@)
    }

    /// Decodes a compressed point, rejecting anything
    /// `G1Affine::from_compressed` rejects.
    pub fn from_bytes(b: &Vec<u8>) -> (r: Result<GroupPoint, Error>)
        ensures
            b@.len() == 48 && g1_valid(b@) ==> (r matches Ok(p) && p@ == b@),
            !(b@.len() == 48 && g1_valid(b@)) ==> r == Err::<GroupPoint, Error>(
                Error::MalformedEncoding,
            ),
    {
        if b.len() != 48 {
            return Err(Error::MalformedEncoding);
        }
        if g1_check(b) {
            Ok(GroupPoint { bytes: crate::bytes::copy_bytes(b) })
        } else {
            Err(Error::MalformedEncoding)
        }
    }

    /// The compressed encoding: always 48 bytes.
    pub fn as_bytes(&self) -> (r: &Vec<u8>)
        ensures
            r@ == self@,
            r@.len() == 48,
    {
        proof {
            use_type_invariant(self);
        }
        &self.bytes
    }

    /// The compressed encoding, as an owned copy: always 48 bytes.
    pub fn to_bytes(&self) -> (r: Vec<u8>)
        ensures
            r@ == self@,
            r@.len() == 48,
    {
        proof {
            use_type_invariant(self);
        }
        crate::bytes::copy_bytes(&self.bytes)
    }

    /// An owned copy of the point.
    pub fn duplicate(&self) -> (r: GroupPoint)
        ensures
            r@ == self@,
    {
        proof {
            use_type_invariant(self);
        }
        GroupPoint { bytes: crate::bytes::copy_bytes(&self.bytes) }
    }

    /// Whether two points are equal (by canonical encoding).
    pub fn equals(&self, other: &GroupPoint) -> (r: bool)
        ensures
            r <==> self@ == other@,
    {
        crate::bytes::bytes_eq(&self.bytes, &other.bytes)
    }

}

/// An element of the scalar field, held as its 32-byte canonical
/// little-endian encoding.
pub struct FieldScalar {
    bytes: Vec<u8>,
}

impl View for FieldScalar {
    type V = Seq<u8>;

    closed spec fn view(&self) -> Seq<u8> {
        self.bytes@
    }
}

impl FieldScalar {
    #[verifier::type_invariant]
    spec fn type_inv(self) -> bool {
        self.bytes@.len() == 32 && sc_valid(self.bytes@)
    }

    /// Decodes a canonical scalar encoding, rejecting anything
    /// `Scalar::from_bytes_le` rejects.
    pub fn from_bytes(b: &Vec<u8>) -> (r: Result<FieldScalar, Error>)
        ensures
            b@.len() == 32 && sc_valid(b@) ==> (r matches Ok(s) && s@ == b@),
            !(b@.len() == 32 && sc_valid(b@)) ==> r == Err::<FieldScalar, Error>(
                Error::MalformedEncoding,
            ),
            b@.len() == 32 && b@[31] == 0 ==> (r matches Ok(s) && s@ == b@),
    {
        if b.len() != 32 {
            return Err(Error::MalformedEncoding);
        }
        if sc_check(b) {
            Ok(FieldScalar { bytes: crate::bytes::copy_bytes(b) })
        } else {
            Err(Error::MalformedEncoding)
        }
    }

    /// The scalar with the given small value.
    pub fn from_u64(v: u64) -> (r: FieldScalar)
        ensures
            r@ == sc_of_u64(v),
    {
        sc_from_u64(v)
    }

    /// The canonical encoding: always 32 bytes.
    pub fn as_bytes(&self) -> (r: &Vec<u8>)
        ensures
            r@ == self@,
            r@.len() == 32,
    {
        proof {
            use_type_invariant(self);
        }
        &self.bytes
    }

    /// An owned copy of the scalar.
    pub fn duplicate(&self) -> (r: FieldScalar)
        ensures
            r@ == self@,
    {
        proof {
            use_type_invariant(self);
        }
        FieldScalar { bytes: crate::bytes::copy_bytes(&self.bytes) }
    }

    /// Whether two scalars are equal (by canonical encoding).
    pub fn equals(&self, other: &FieldScalar) -> (r: bool)
        ensures
            r <==> self@ == other@,
    {
        crate::bytes::bytes_eq(&self.bytes, &other.bytes)
    }

}

// ---------------------------------------------------------------------------
// Trusted wrappers around the group and field arithmetic.
// ---------------------------------------------------------------------------
/// Relies on `G1Affine::from_compressed`: accepts exactly the valid
/// compressed encodings of points of the prime-order subgroup.
#[verifier::external_body]
fn g1_check(b: &Vec<u8>) -> (r: bool)
    requires
        b@.len() == 48,
    ensures
        r == g1_valid(b@),
{
    let arr: [u8; 48] = b.as_slice().try_into().unwrap();
    bool::from(G1Affine::from_compressed(&arr).is_some())
}

/// Relies on `Scalar::from_bytes_le`: accepts exactly the canonical
/// little-endian encodings, that is values below the group order.  The order
/// exceeds 2^248, so any 32-byte value whose last byte is zero is accepted.
#[verifier::external_body]
fn sc_check(b: &Vec<u8>) -> (r: bool)
    requires
        b@.len() == 32,
    ensures
        r == sc_valid(b@),
        b@[31] == 0 ==> r,
{
    let arr: [u8; 32] = b.as_slice().try_into().unwrap();
    bool::from(Scalar::from_bytes_le(&arr).is_some())
}

/// Relies on `Scalar::from(u64)` and `Scalar::to_bytes_le`: the canonical
/// encoding of a small scalar.
#[verifier::external_body]
fn sc_from_u64(v: u64) -> (r: FieldScalar)
    ensures
        r@ == sc_of_u64(v),
{
    FieldScalar { bytes: Scalar::from(v).to_bytes_le().to_vec() }
}

/// Relies on `Scalar::random`: a scalar drawn uniformly from the field.
/// Nothing is promised of the value.
#[verifier::external_body]
pub(crate) fn sc_random() -> (r: FieldScalar)
{
    FieldScalar { bytes: Scalar::random(&mut OsRng).to_bytes_le().to_vec() }
}

/// Relies on `rand::Rng::gen_range`: a uniformly drawn index below `n`.
#[verifier::external_body]
pub(crate) fn random_index(n: usize) -> (r: usize)
    requires
        n >= 1,
    ensures
        r < n,
{
    OsRng.gen_range(0..n)
}

/// Relies on scalar field addition in blstrs.
#[verifier::external_body]
pub(crate) fn sc_add(a: &FieldScalar, b: &FieldScalar) -> (r: FieldScalar)
    ensures
        r@ == sc_add_of(a@, b@),
{
    let x = Scalar::from_bytes_le(a.bytes.as_slice().try_into().unwrap()).unwrap();
    let y = Scalar::from_bytes_le(b.bytes.as_slice().try_into().unwrap()).unwrap();
    FieldScalar { bytes: (x + y).to_bytes_le().to_vec() }
}

/// Relies on scalar field subtraction in blstrs: the result is the exact
/// correction term, in that adding it back to the subtrahend returns the
/// minuend (`b + (a - b) = a` in the field, over canonical encodings).
#[verifier::external_body]
pub(crate) fn sc_sub(a: &FieldScalar, b: &FieldScalar) -> (r: FieldScalar)
    ensures
        r@ == sc_sub_of(a@, b@),
        sc_add_of(b@, r@) == a@,
{
    let x = Scalar::from_bytes_le(a.bytes.as_slice().try_into().unwrap()).unwrap();
    let y = Scalar::from_bytes_le(b.bytes.as_slice().try_into().unwrap()).unwrap();
    FieldScalar { bytes: (x - y).to_bytes_le().to_vec() }
}

/// Relies on scalar field multiplication in blstrs.
#[verifier::external_body]
pub(crate) fn sc_mul(a: &FieldScalar, b: &FieldScalar) -> (r: FieldScalar)
    ensures
        r@ == sc_mul_of(a@, b@),
{
    let x = Scalar::from_bytes_le(a.bytes.as_slice().try_into().unwrap()).unwrap();
    let y = Scalar::from_bytes_le(b.bytes.as_slice().try_into().unwrap()).unwrap();
    FieldScalar { bytes: (x * y).to_bytes_le().to_vec() }
}

/// Relies on group addition in blstrs.  Pedersen commitments are additively
/// homomorphic: when both summands are commitments, the sum is the
/// commitment to the component-wise scalar sums (`PedersenGens::commit` is
/// `v·G_v + b·G_b`, so the offsets add axis by axis; this holds for every
/// opening of the summands).
#[verifier::external_body]
pub(crate) fn g1_add(a: &GroupPoint, b: &GroupPoint) -> (r: GroupPoint)
    ensures
        r@ == g1_add_of(a@, b@),
        forall|v1: Seq<u8>, b1: Seq<u8>, v2: Seq<u8>, b2: Seq<u8>|
            a@ == #[trigger] g1_commit_of(v1, b1) && b@ == #[trigger] g1_commit_of(v2, b2)
                ==> r@ == g1_commit_of(sc_add_of(v1, v2), sc_add_of(b1, b2)),
{
    let x = G1Affine::from_compressed(a.bytes.as_slice().try_into().unwrap()).unwrap();
    let y = G1Affine::from_compressed(b.bytes.as_slice().try_into().unwrap()).unwrap();
    GroupPoint { bytes: (G1Projective::from(x) + G1Projective::from(y)).to_affine().to_compressed().to_vec() }
}

/// Relies on group subtraction in blstrs.
#[verifier::external_body]
pub(crate) fn g1_sub(a: &GroupPoint, b: &GroupPoint) -> (r: GroupPoint)
    ensures
        r@ == g1_sub_of(a@, b@),
{
    let x = G1Affine::from_compressed(a.bytes.as_slice().try_into().unwrap()).unwrap();
    let y = G1Affine::from_compressed(b.bytes.as_slice().try_into().unwrap()).unwrap();
    GroupPoint { bytes: (G1Projective::from(x) - G1Projective::from(y)).to_affine().to_compressed().to_vec() }
}

/// Relies on scalar multiplication in blstrs.
#[verifier::external_body]
pub(crate) fn g1_mul(s: &FieldScalar, p: &GroupPoint) -> (r: GroupPoint)
    ensures
        r@ == g1_mul_of(s@, p@),
{
    let x = Scalar::from_bytes_le(s.bytes.as_slice().try_into().unwrap()).unwrap();
    let q = G1Affine::from_compressed(p.bytes.as_slice().try_into().unwrap()).unwrap();
    GroupPoint { bytes: (G1Projective::from(q) * x).to_affine().to_compressed().to_vec() }
}

/// Relies on `G1Projective::generator` and scalar multiplication in blstrs:
/// a multiple of the fixed G1 generator.
#[verifier::external_body]
pub(crate) fn g1_base_mul(s: &FieldScalar) -> (r: GroupPoint)
    ensures
        r@ == g1_base_mul_of(s@),
{
    let x = Scalar::from_bytes_le(s.bytes.as_slice().try_into().unwrap()).unwrap();
    GroupPoint { bytes: (G1Projective::generator() * x).to_affine().to_compressed().to_vec() }
}

/// Relies on `PedersenGens::default` and `PedersenGens::commit`: the Pedersen
/// commitment `v·G_v + b·G_b` under the deterministic, process-wide
/// generator pair.
#[verifier::external_body]
pub(crate) fn g1_commit(v: &FieldScalar, b: &FieldScalar) -> (r: GroupPoint)
    ensures
        r@ == g1_commit_of(v@, b@),
{
    let x = Scalar::from_bytes_le(v.bytes.as_slice().try_into().unwrap()).unwrap();
    let y = Scalar::from_bytes_le(b.bytes.as_slice().try_into().unwrap()).unwrap();
    GroupPoint { bytes: PedersenGens::default().commit(x, y).to_affine().to_compressed().to_vec() }
}

/// Relies on tiny_keccak's `Sha3::v256`, `update` and `finalize`: the 32-byte
/// SHA3-256 digest of the input.
#[verifier::external_body]
pub(crate) fn sha3_256(m: &Vec<u8>) -> (r: Vec<u8>)
    ensures
        r@ == sha3_of(m@),
        r@.len() == 32,
{
    let mut sha3 = Sha3::v256();
    sha3.update(m.as_slice());
    let mut out = [0u8; 32];
    sha3.finalize(&mut out);
    out.to_vec()
}


// ---------------------------------------------------------------------------
// Sums of points and scalars.
// ---------------------------------------------------------------------------
/// The views of a list of points.
pub open spec fn views_of(s: Seq<GroupPoint>) -> Seq<Seq<u8>> {
    s.map_values(|p: GroupPoint| p@)
}

/// The compressed sum of a list of compressed points, folded left from the
/// group identity (the commitment to zero under blinding zero).
pub open spec fn g1_sum(s: Seq<Seq<u8>>) -> Seq<u8>
    decreases s.len(),
{
    if s.len() == 0 {
        g1_commit_of(sc_of_u64(0), sc_of_u64(0))
    } else {
        g1_add_of(g1_sum(s.drop_last()), s.last())
    }
}

/// The canonical encoding of the sum of a list of scalars, folded left from
/// zero.
pub open spec fn sc_sum(s: Seq<Seq<u8>>) -> Seq<u8>
    decreases s.len(),
{
    if s.len() == 0 {
        sc_of_u64(0)
    } else {
        sc_add_of(sc_sum(s.drop_last()), s.last())
    }
}

/// Adds up a list of points.
pub fn sum_points(v: &Vec<GroupPoint>) -> (r: GroupPoint)
    ensures
        r@ == g1_sum(views_of(v@)),
{
    let zero = FieldScalar::from_u64(0);
    let mut acc = g1_commit(&zero, &zero);
    assert(views_of(v@).take(0) =~= Seq::<Seq<u8>>::empty());
    let mut i: usize = 0;
    while i < v.len()
        invariant
            i <= v@.len(),
            acc@ == g1_sum(views_of(v@).take(i as int)),
        decreases v@.len() - i,
    {
        acc = g1_add(&acc, &v[i]);
        assert(views_of(v@).take(i + 1 as int).drop_last() =~= views_of(v@).take(i as int));
        assert(views_of(v@).take(i + 1 as int).last() == v@[i as int]@);
        i = i + 1;
    }
    assert(views_of(v@).take(v@.len() as int) =~= views_of(v@));
    acc
}

/// Adds up a list of Pedersen commitments with known openings: the result
/// is both the point fold of the list and, by the homomorphism, the
/// commitment to the summed values under the summed blindings.
pub(crate) fn sum_commitments(
    v: &Vec<GroupPoint>,
    Ghost(vals): Ghost<Seq<Seq<u8>>>,
    Ghost(blinds): Ghost<Seq<Seq<u8>>>,
) -> (r: GroupPoint)
    requires
        vals.len() == v@.len(),
        blinds.len() == v@.len(),
        forall|i: int| 0 <= i < v@.len() ==> views_of(v@)[i] == g1_commit_of(vals[i], blinds[i]),
    ensures
        r@ == g1_sum(views_of(v@)),
        r@ == g1_commit_of(sc_sum(vals), sc_sum(blinds)),
{
    let zero = FieldScalar::from_u64(0);
    let mut acc = g1_commit(&zero, &zero);
    assert(views_of(v@).take(0) =~= Seq::<Seq<u8>>::empty());
    assert(vals.take(0) =~= Seq::<Seq<u8>>::empty());
    assert(blinds.take(0) =~= Seq::<Seq<u8>>::empty());
    let mut i: usize = 0;
    while i < v.len()
        invariant
            i <= v@.len(),
            vals.len() == v@.len(),
            blinds.len() == v@.len(),
            forall|k: int| 0 <= k < v@.len() ==> views_of(v@)[k] == g1_commit_of(
                vals[k],
                blinds[k],
            ),
            acc@ == g1_sum(views_of(v@).take(i as int)),
            acc@ == g1_commit_of(sc_sum(vals.take(i as int)), sc_sum(blinds.take(i as int))),
        decreases v@.len() - i,
    {
        let next = g1_add(&acc, &v[i]);
        proof {
            assert(views_of(v@)[i as int] == g1_commit_of(vals[i as int], blinds[i as int]));
            assert(next@ == g1_commit_of(
                sc_add_of(sc_sum(vals.take(i as int)), vals[i as int]),
                sc_add_of(sc_sum(blinds.take(i as int)), blinds[i as int]),
            ));
            assert(views_of(v@).take(i + 1 as int).drop_last() =~= views_of(v@).take(i as int));
            assert(views_of(v@).take(i + 1 as int).last() == v@[i as int]@);
            assert(vals.take(i + 1 as int).drop_last() =~= vals.take(i as int));
            assert(vals.take(i + 1 as int).last() == vals[i as int]);
            assert(blinds.take(i + 1 as int).drop_last() =~= blinds.take(i as int));
            assert(blinds.take(i + 1 as int).last() == blinds[i as int]);
        }
        acc = next;
        i = i + 1;
    }
    assert(views_of(v@).take(v@.len() as int) =~= views_of(v@));
    assert(vals.take(vals.len() as int) =~= vals);
    assert(blinds.take(blinds.len() as int) =~= blinds);
    acc
}

// ---------------------------------------------------------------------------
// Trusted boundary to the range-proof subsystem.
// ---------------------------------------------------------------------------
#[verifier::external_type_specification]
#[verifier::external_body]
pub struct ExTranscript(Transcript);

#[verifier::external_type_specification]
#[verifier::external_body]
pub struct ExProofError(ProofError);

/// Whether `proof` is a valid 64-bit range proof for `commitment` against
/// the transcript state that verifying the `prefix` pairs, in order, leaves
/// on a fresh transcript with the fixed domain label.  The transcript's
/// absorptions are a deterministic function of the pairs alone, so this is
/// a function of its arguments.
pub uninterp spec fn rp_step_ok(
    prefix: Seq<(Seq<u8>, Seq<u8>)>,
    proof: Seq<u8>,
    commitment: Seq<u8>,
) -> bool;

/// Whether every (range proof, commitment) pair of the list is valid
/// against the transcript state left by the pairs before it.
pub open spec fn rp_chain_ok(pairs: Seq<(Seq<u8>, Seq<u8>)>) -> bool
    decreases pairs.len(),
{
    pairs.len() == 0 || (rp_chain_ok(pairs.drop_last()) && rp_step_ok(
        pairs.drop_last(),
        pairs.last().0,
        pairs.last().1,
    ))
}

/// A valid chain is valid on every prefix.
pub proof fn lemma_rp_chain_prefix(pairs: Seq<(Seq<u8>, Seq<u8>)>, k: int)
    requires
        0 <= k <= pairs.len(),
        rp_chain_ok(pairs),
    ensures
        rp_chain_ok(pairs.take(k)),
    decreases pairs.len(),
{
    if k == pairs.len() {
        assert(pairs.take(k) =~= pairs);
    } else {
        assert(pairs.drop_last().take(k) =~= pairs.take(k));
        lemma_rp_chain_prefix(pairs.drop_last(), k);
    }
}

/// A Merlin transcript seeded with the fixed domain label, threaded through
/// every range proof of one transaction, with a ghost record of the
/// (proof bytes, commitment) pairs it has absorbed so far.
pub struct RangeTranscript {
    ts: Transcript,
    pairs: Ghost<Seq<(Seq<u8>, Seq<u8>)>>,
}

impl RangeTranscript {
    /// The (range proof, commitment) pairs this transcript has absorbed,
    /// in order.
    pub closed spec fn pairs_view(self) -> Seq<(Seq<u8>, Seq<u8>)> {
        self.pairs@
    }
}

/// Relies on `merlin::Transcript::new`, seeded with the fixed domain label
/// `BLST_RINGCT` that binds the range proofs of one transaction together.
#[verifier::external_body]
fn new_ringct_transcript() -> Transcript {
    Transcript::new(b"BLST_RINGCT")
}

impl RangeTranscript {
    /// A fresh transcript with the fixed domain label and no absorbed
    /// pairs.
    pub(crate) fn new() -> (r: RangeTranscript)
        ensures
            r.pairs_view() == Seq::<(Seq<u8>, Seq<u8>)>::empty(),
    {
        RangeTranscript { ts: new_ringct_transcript(), pairs: Ghost(Seq::empty()) }
    }

    /// Relies on `RangeProof::prove_single_with_rng` (with generators from
    /// `BulletproofGens::new` and `PedersenGens::default`).  The arguments
    /// are pinned to 64 bits and one party, the protocol's fixed
    /// parameters, which `rp_step_ok` presumes: at them the prover's only
    /// error paths — the structural bit-size and generator-capacity checks
    /// — pass, so it succeeds; the returned point is the Pedersen
    /// commitment to `v` under `blinding`; and the produced proof, in its
    /// canonical byte form (`RangeProof::to_bytes`), verifies at the
    /// transcript state it was produced at, since the verifier replays the
    /// prover's absorptions.
    #[verifier::external_body]
    pub(crate) fn prove_step(
        &mut self,
        v: u64,
        blinding: &FieldScalar,
        bits: usize,
        parties: usize,
    ) -> (r: Result<(Vec<u8>, GroupPoint), ProofError>)
        requires
            bits == 64,
            parties == 1,
        ensures
            r is Ok,
            r matches Ok(p) ==> p.1@ == g1_commit_of(sc_of_u64(v), blinding@) && rp_step_ok(
                old(self).pairs_view(),
                p.0@,
                p.1@,
            ) && final(self).pairs_view() == old(self).pairs_view().push((p.0@, p.1@)),
    {
        let sc = Scalar::from_bytes_le(blinding.bytes.as_slice().try_into().unwrap()).unwrap();
        let bp = BulletproofGens::new(bits, parties);
        let (proof, commitment) = RangeProof::prove_single_with_rng(
            &bp, &PedersenGens::default(), &mut self.ts, v, &sc, bits, &mut OsRng,
        )?;
        Ok((proof.to_bytes(), GroupPoint { bytes: commitment.to_compressed().to_vec() }))
    }

    /// Relies on `RangeProof::from_bytes` and `RangeProof::verify_single`,
    /// with the arguments pinned to the protocol's fixed 64 bits and one
    /// party that `rp_step_ok` presumes: a proof valid at this transcript
    /// state then always verifies.  Nothing is promised of an accepted
    /// proof, since the verifier batches its checks with a random combiner
    /// from `thread_rng`.
    #[verifier::external_body]
    pub(crate) fn verify_step(
        &mut self,
        proof: &Vec<u8>,
        commitment: &GroupPoint,
        bits: usize,
        parties: usize,
    ) -> (r: Result<(), ProofError>)
        requires
            bits == 64,
            parties == 1,
        ensures
            final(self).pairs_view() == old(self).pairs_view().push((proof@, commitment@)),
            rp_step_ok(old(self).pairs_view(), proof@, commitment@) ==> r is Ok,
    {
        let p = RangeProof::from_bytes(proof.as_slice())?;
        let c = G1Affine::from_compressed(commitment.bytes.as_slice().try_into().unwrap()).unwrap();
        let bp = BulletproofGens::new(bits, parties);
        p.verify_single(&bp, &PedersenGens::default(), &mut self.ts, &c, bits)
    }
}

} // verus!

