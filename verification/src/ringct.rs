//! Transaction assembly and verification: the RingCT pipeline of
//! pseudo-commitments, blinding-factor balancing, shared-transcript range
//! proofs, the canonical signing message, and the full verification
//! protocol.
use vstd::prelude::*;

use crate::bytes::{
    all_distinct, concat_lists, flat, lemma_concat_lists_push, lemma_flat_push, push_all,
};
use crate::commitment::RevealedCommitment;
use crate::curve::{
    g1_commit_of, g1_sum, lemma_rp_chain_prefix, rp_chain_ok, sc_add, sc_add_of, sc_of_u64,
    sc_sub, sc_sub_of, sc_sum, sha3_256, sha3_of, sum_commitments, sum_points, views_of,
    FieldScalar, GroupPoint, RangeTranscript,
};
use crate::mlsag::{MlsagMaterial, MlsagSignature};
use crate::{Amount, Error};

verus! {

/// The range-proof bit width: amounts are 64-bit values.
pub const RANGE_PROOF_BITS: usize = 64;

/// The number of parties aggregated in one range proof.
pub const RANGE_PROOF_PARTIES: usize = 1;

// ---------------------------------------------------------------------------
// View helpers over the transaction's components.
// ---------------------------------------------------------------------------
/// The key images of a list of signatures.
pub open spec fn ki_views(ms: Seq<MlsagSignature>) -> Seq<Seq<u8>> {
    ms.map_values(|m: MlsagSignature| m.key_image@)
}

/// The pseudo-commitments of a list of signatures.
pub open spec fn pseudo_views(ms: Seq<MlsagSignature>) -> Seq<Seq<u8>> {
    ms.map_values(|m: MlsagSignature| m.pseudo_commitment@)
}

/// The rings of a list of signatures, each as its list of public keys.
pub open spec fn ring_lists(ms: Seq<MlsagSignature>) -> Seq<Seq<Seq<u8>>> {
    ms.map_values(|m: MlsagSignature| m.ring_views())
}

/// The canonical byte strings of a list of output proofs.
pub open spec fn op_views(os: Seq<OutputProof>) -> Seq<Seq<u8>> {
    os.map_values(|o: OutputProof| o.bytes_spec())
}

/// The commitments of a list of output proofs.
pub open spec fn commitment_views(os: Seq<OutputProof>) -> Seq<Seq<u8>> {
    os.map_values(|o: OutputProof| o.commitment@)
}

/// The blinding factors of a list of revealed commitments.
pub open spec fn blinding_views(rs: Seq<RevealedCommitment>) -> Seq<Seq<u8>> {
    rs.map_values(|r: RevealedCommitment| r.blinding@)
}

/// The (range proof, commitment) byte pairs of a list of output proofs, in
/// order: what one shared transcript absorbs while verifying them.
pub open spec fn op_rp_pairs(os: Seq<OutputProof>) -> Seq<(Seq<u8>, Seq<u8>)> {
    os.map_values(|o: OutputProof| (o.range_proof@, o.commitment@))
}

/// The per-ring commitment views of the verifier's argument.
pub open spec fn pcpr_views(s: Seq<Vec<GroupPoint>>) -> Seq<Seq<Seq<u8>>> {
    s.map_values(|v: Vec<GroupPoint>| views_of(v@))
}

/// The canonical signing message over the four component lists: all ring
/// public keys, all key images, all pseudo-commitments, then every output
/// proof's canonical bytes, concatenated in this exact order with no length
/// fields or separators.
pub open spec fn message_of(
    pks: Seq<Seq<u8>>,
    kis: Seq<Seq<u8>>,
    pcs: Seq<Seq<u8>>,
    ops: Seq<Seq<u8>>,
) -> Seq<u8> {
    flat(pks) + flat(kis) + flat(pcs) + flat(ops)
}

// ---------------------------------------------------------------------------
// Outputs.
// ---------------------------------------------------------------------------
/// An output declared by the sender: the recipient's public key and the
/// cleartext amount.
pub struct Output {
    pub public_key: GroupPoint,
    pub amount: Amount,
}

impl Output {
    pub fn new(public_key: GroupPoint, amount: Amount) -> (r: Output)
        ensures
            r.public_key@ == public_key@,
            r.amount == amount,
    {
        Output { public_key, amount }
    }

    pub fn public_key(&self) -> (r: GroupPoint)
        ensures
            r@ == self.public_key@,
    {
        self.public_key.duplicate()
    }

    pub fn amount(&self) -> (r: Amount)
        ensures
            r == self.amount,
    {
        self.amount
    }

    /// A commitment to this output's amount under a fresh uniform blinding.
    pub fn random_commitment(&self) -> (r: RevealedCommitment)
        ensures
            r.value == self.amount,
    {
        RevealedCommitment::from_value(self.amount)
    }
}

/// An output commitment still in revealed form, paired with its recipient:
/// held by the assembler during signing and returned to the sender.
pub struct RevealedOutputCommitment {
    pub public_key: GroupPoint,
    pub revealed_commitment: RevealedCommitment,
}

/// The blinding factors of a list of revealed output commitments.
pub open spec fn roc_blindings(rs: Seq<RevealedOutputCommitment>) -> Seq<Seq<u8>> {
    rs.map_values(|x: RevealedOutputCommitment| x.revealed_commitment.blinding@)
}

/// The on-wire form of an output: recipient key, hidden commitment, and the
/// range proof binding the commitment to a 64-bit value.
pub struct OutputProof {
    pub public_key: GroupPoint,
    pub range_proof: Vec<u8>,
    pub commitment: GroupPoint,
}

impl OutputProof {
    /// The canonical byte encoding: compressed public key, the range proof's
    /// self-delimiting bytes, compressed commitment, in this order.
    pub open spec fn bytes_spec(self) -> Seq<u8> {
        self.public_key@ + self.range_proof@ + self.commitment@
    }

    pub fn to_bytes(&self) -> (r: Vec<u8>)
        ensures
            r@ == self.bytes_spec(),
    {
        let mut v: Vec<u8> = Vec::new();
        push_all(&mut v, self.public_key.as_bytes());
        push_all(&mut v, &self.range_proof);
        push_all(&mut v, self.commitment.as_bytes());
        v
    }

    pub fn public_key(&self) -> (r: &GroupPoint)
        ensures
            r@ == self.public_key@,
    {
        &self.public_key
    }

    pub fn range_proof(&self) -> (r: &Vec<u8>)
        ensures
            r@ == self.range_proof@,
    {
        &self.range_proof
    }

    pub fn commitment(&self) -> (r: GroupPoint)
        ensures
            r@ == self.commitment@,
    {
        self.commitment.duplicate()
    }
}

// ---------------------------------------------------------------------------
// The signing message.
// ---------------------------------------------------------------------------
/// Builds the canonical signing message from its four component lists; the
/// assembler and the verifier both call this, so their bytes agree by
/// construction.
fn gen_message_for_signing(
    public_keys: &Vec<GroupPoint>,
    key_images: &Vec<GroupPoint>,
    pseudo_commitments: &Vec<GroupPoint>,
    output_proofs: &Vec<OutputProof>,
) -> (r: Vec<u8>)
    ensures
        r@ == message_of(
            views_of(public_keys@),
            views_of(key_images@),
            views_of(pseudo_commitments@),
            op_views(output_proofs@),
        ),
{
    let mut msg: Vec<u8> = Vec::new();
    push_points(&mut msg, public_keys);
    push_points(&mut msg, key_images);
    push_points(&mut msg, pseudo_commitments);
    let ghost head = msg@;
    let mut i: usize = 0;
    while i < output_proofs.len()
        invariant
            i <= output_proofs@.len(),
            msg@ == head + flat(op_views(output_proofs@).take(i as int)),
        decreases output_proofs@.len() - i,
    {
        let b = output_proofs[i].to_bytes();
        push_all(&mut msg, &b);
        proof {
            lemma_flat_push(
                op_views(output_proofs@).take(i as int),
                op_views(output_proofs@)[i as int],
            );
            assert(op_views(output_proofs@).take(i + 1 as int) =~= op_views(
                output_proofs@,
            ).take(i as int).push(op_views(output_proofs@)[i as int]));
        }
        i = i + 1;
    }
    assert(op_views(output_proofs@).take(output_proofs@.len() as int) =~= op_views(
        output_proofs@,
    ));
    msg
}

/// Appends the compressed bytes of every point, in order.
fn push_points(out: &mut Vec<u8>, pts: &Vec<GroupPoint>)
    ensures
        final(out)@ == old(out)@ + flat(views_of(pts@)),
{
    let ghost head = out@;
    let mut i: usize = 0;
    while i < pts.len()
        invariant
            i <= pts@.len(),
            out@ == head + flat(views_of(pts@).take(i as int)),
        decreases pts@.len() - i,
    {
        push_all(out, pts[i].as_bytes());
        proof {
            lemma_flat_push(views_of(pts@).take(i as int), views_of(pts@)[i as int]);
            assert(views_of(pts@).take(i + 1 as int) =~= views_of(pts@).take(i as int).push(
                views_of(pts@)[i as int],
            ));
        }
        i = i + 1;
    }
    assert(views_of(pts@).take(pts@.len() as int) =~= views_of(pts@));
}

/// Whether all points of a list are pairwise distinct, by canonical
/// encoding.
fn all_distinct_points(v: &Vec<GroupPoint>) -> (r: bool)
    ensures
        r <==> all_distinct(views_of(v@)),
{
    let mut i: usize = 0;
    while i < v.len()
        invariant
            i <= v@.len(),
            forall|a: int, b: int| 0 <= a < b < v@.len() && a < i ==> views_of(v@)[a] != views_of(
                v@,
            )[b],
        decreases v@.len() - i,
    {
        let mut j: usize = i + 1;
        while j < v.len()
            invariant
                i < j <= v@.len(),
                i < v@.len(),
                forall|b: int| i < b < j ==> views_of(v@)[i as int] != views_of(v@)[b],
                forall|a: int, b: int| 0 <= a < b < v@.len() && a < i ==> views_of(v@)[a]
                    != views_of(v@)[b],
            decreases v@.len() - j,
        {
            if v[i].equals(&v[j]) {
                assert(views_of(v@)[i as int] == views_of(v@)[j as int]);
                assert(!all_distinct(views_of(v@)));
                return false;
            }
            j = j + 1;
        }
        i = i + 1;
    }
    true
}


/// The blinding-correction invariant of a freshly signed transaction: for
/// some list of pseudo blindings, every signature's pseudo-commitment is
/// the commitment to its input's true amount under that blinding, and the
/// last output's blinding is exactly the sum of the pseudo blindings minus
/// the sum of the other output blindings.
pub open spec fn blinding_correction_holds(
    m: RingCtMaterial,
    tx: RingCtTransaction,
    rcs: Seq<RevealedCommitment>,
) -> bool {
    exists|pbs: Seq<Seq<u8>>|
        pbs.len() == m.inputs@.len() && (forall|i: int|
            0 <= i < pbs.len() ==> (#[trigger] tx.mlsags@[i]).pseudo_commitment@ == g1_commit_of(
                sc_of_u64(m.inputs@[i].true_input.revealed_commitment.value),
                pbs[i],
            )) && rcs.last().blinding@ == sc_sub_of(
            sc_sum(pbs),
            sc_sum(blinding_views(rcs.drop_last())),
        )
}

// ---------------------------------------------------------------------------
// The transaction assembler.
// ---------------------------------------------------------------------------
/// Everything a spender needs to assemble a transaction: per-input signing
/// material and the declared outputs.
pub struct RingCtMaterial {
    pub inputs: Vec<MlsagMaterial>,
    pub outputs: Vec<Output>,
}

impl RingCtMaterial {
    /// Every input's true index lies within its ring.
    pub open spec fn wf(self) -> bool {
        forall|i: int| 0 <= i < self.inputs@.len() ==> (#[trigger] self.inputs@[i]).wf()
    }

    /// The rings of all inputs, each as its list of public keys.
    pub open spec fn pk_lists(self) -> Seq<Seq<Seq<u8>>> {
        self.inputs@.map_values(|m: MlsagMaterial| m.ring_pk_spec())
    }

    /// The key images of all inputs.
    pub open spec fn ki_list(self) -> Seq<Seq<u8>> {
        self.inputs@.map_values(|m: MlsagMaterial| m.true_input.key_image_spec())
    }

    /// The value scalars of the inputs' true amounts.
    pub open spec fn input_value_scalars(self) -> Seq<Seq<u8>> {
        self.inputs@.map_values(
            |m: MlsagMaterial| sc_of_u64(m.true_input.revealed_commitment.value),
        )
    }

    /// The value scalars of the declared output amounts.
    pub open spec fn output_value_scalars(self) -> Seq<Seq<u8>> {
        self.outputs@.map_values(|o: Output| sc_of_u64(o.amount))
    }

    /// All ring public keys across all inputs, flattened in order.
    pub fn public_keys(&self) -> (r: Vec<GroupPoint>)
        requires
            self.wf(),
        ensures
            views_of(r@) == concat_lists(self.pk_lists()),
    {
        let mut r: Vec<GroupPoint> = Vec::new();
        assert(self.pk_lists().take(0) =~= Seq::<Seq<Seq<u8>>>::empty());
        let mut i: usize = 0;
        while i < self.inputs.len()
            invariant
                self.wf(),
                i <= self.inputs@.len(),
                views_of(r@) == concat_lists(self.pk_lists().take(i as int)),
            decreases self.inputs@.len() - i,
        {
            let pks = self.inputs[i].public_keys();
            let mut j: usize = 0;
            let ghost mid = r@;
            while j < pks.len()
                invariant
                    j <= pks@.len(),
                    r@.len() == mid.len() + j,
                    forall|k: int| 0 <= k < mid.len() ==> views_of(r@)[k] == views_of(mid)[k],
                    forall|k: int| 0 <= k < j ==> views_of(r@)[mid.len() + k] == views_of(
                        pks@,
                    )[k],
                decreases pks@.len() - j,
            {
                r.push(pks[j].duplicate());
                j = j + 1;
            }
            proof {
                assert(views_of(r@) =~= views_of(mid) + views_of(pks@));
                lemma_concat_lists_push(
                    self.pk_lists().take(i as int),
                    self.pk_lists()[i as int],
                );
                assert(self.pk_lists().take(i + 1 as int) =~= self.pk_lists().take(
                    i as int,
                ).push(self.pk_lists()[i as int]));
            }
            i = i + 1;
        }
        assert(self.pk_lists().take(self.inputs@.len() as int) =~= self.pk_lists());
        r
    }

    /// The key image of every input, in input order.
    pub fn key_images(&self) -> (r: Vec<GroupPoint>)
        ensures
            views_of(r@) == self.ki_list(),
    {
        let mut r: Vec<GroupPoint> = Vec::new();
        let mut i: usize = 0;
        while i < self.inputs.len()
            invariant
                i <= self.inputs@.len(),
                r@.len() == i,
                forall|k: int| 0 <= k < i ==> views_of(r@)[k] == self.ki_list()[k],
            decreases self.inputs@.len() - i,
        {
            r.push(self.inputs[i].true_input.key_image());
            i = i + 1;
        }
        assert(views_of(r@) =~= self.ki_list());
        r
    }

    /// A fresh pseudo-commitment for every input: each commits to its true
    /// amount under a new uniform blinding.
    fn revealed_pseudo_commitments(&self) -> (r: Vec<RevealedCommitment>)
        ensures
            r@.len() == self.inputs@.len(),
            forall|i: int| 0 <= i < r@.len() ==> (#[trigger] r@[i]).value
                == self.inputs@[i].true_input.revealed_commitment.value,
    {
        let mut r: Vec<RevealedCommitment> = Vec::new();
        let mut i: usize = 0;
        while i < self.inputs.len()
            invariant
                i <= self.inputs@.len(),
                r@.len() == i,
                forall|k: int| 0 <= k < i ==> (#[trigger] r@[k]).value
                    == self.inputs@[k].true_input.revealed_commitment.value,
            decreases self.inputs@.len() - i,
        {
            r.push(self.inputs[i].true_input.random_pseudo_commitment());
            i = i + 1;
        }
        r
    }

    /// The public points of a list of revealed pseudo-commitments.
    fn pseudo_commitments(&self, revealed: &Vec<RevealedCommitment>) -> (r: Vec<GroupPoint>)
        ensures
            r@.len() == revealed@.len(),
            forall|i: int| 0 <= i < r@.len() ==> views_of(r@)[i] == revealed@[i].commit_spec(),
    {
        let mut r: Vec<GroupPoint> = Vec::new();
        let mut i: usize = 0;
        while i < revealed.len()
            invariant
                i <= revealed@.len(),
                r@.len() == i,
                forall|k: int| 0 <= k < i ==> (#[trigger] r@[k])@ == revealed@[k].commit_spec(),
            decreases revealed@.len() - i,
        {
            r.push(revealed[i].commit());
            i = i + 1;
        }
        assert(forall|k: int| 0 <= k < r@.len() ==> views_of(r@)[k] == (#[trigger] r@[k])@);
        r
    }

    /// Chooses a fresh random blinding for every output but the last, then
    /// materialises the last output's blinding as exactly the correction
    /// term: the sum of the input blindings minus the sum of the chosen
    /// output blindings, so that blinding balance holds in the scalar field.
    fn revealed_output_commitments(
        &self,
        revealed_pseudo: &Vec<RevealedCommitment>,
    ) -> (r: Vec<RevealedOutputCommitment>)
        requires
            self.outputs@.len() >= 1,
        ensures
            r@.len() == self.outputs@.len(),
            forall|i: int| 0 <= i < r@.len() ==> (#[trigger] r@[i]).public_key@
                == self.outputs@[i].public_key@ && r@[i].revealed_commitment.value
                == self.outputs@[i].amount,
            r@.last().revealed_commitment.blinding@ == sc_sub_of(
                sc_sum(blinding_views(revealed_pseudo@)),
                sc_sum(roc_blindings(r@.drop_last())),
            ),
            sc_sum(roc_blindings(r@)) == sc_sum(blinding_views(revealed_pseudo@)),
    {
        let mut rocs: Vec<RevealedOutputCommitment> = Vec::new();
        let last_idx = self.outputs.len() - 1;
        let mut i: usize = 0;
        while i < last_idx
            invariant
                self.outputs@.len() >= 1,
                last_idx == self.outputs@.len() - 1,
                i <= last_idx,
                rocs@.len() == i,
                forall|k: int| 0 <= k < i ==> (#[trigger] rocs@[k]).public_key@
                    == self.outputs@[k].public_key@ && rocs@[k].revealed_commitment.value
                    == self.outputs@[k].amount,
            decreases self.outputs@.len() - i,
        {
            rocs.push(
                RevealedOutputCommitment {
                    public_key: self.outputs[i].public_key.duplicate(),
                    revealed_commitment: self.outputs[i].random_commitment(),
                },
            );
            i = i + 1;
        }
        let mut input_sum = FieldScalar::from_u64(0);
        assert(blinding_views(revealed_pseudo@).take(0) =~= Seq::<Seq<u8>>::empty());
        let mut j: usize = 0;
        while j < revealed_pseudo.len()
            invariant
                j <= revealed_pseudo@.len(),
                input_sum@ == sc_sum(blinding_views(revealed_pseudo@).take(j as int)),
            decreases revealed_pseudo@.len() - j,
        {
            input_sum = sc_add(&input_sum, revealed_pseudo[j].blinding());
            proof {
                assert(blinding_views(revealed_pseudo@).take(j + 1 as int).drop_last()
                    =~= blinding_views(revealed_pseudo@).take(j as int));
                assert(blinding_views(revealed_pseudo@).take(j + 1 as int).last()
                    == revealed_pseudo@[j as int].blinding@);
            }
            j = j + 1;
        }
        assert(blinding_views(revealed_pseudo@).take(revealed_pseudo@.len() as int)
            =~= blinding_views(revealed_pseudo@));
        let mut output_sum = FieldScalar::from_u64(0);
        assert(roc_blindings(rocs@).take(0) =~= Seq::<Seq<u8>>::empty());
        let mut k: usize = 0;
        let ghost front = rocs@;
        while k < rocs.len()
            invariant
                k <= rocs@.len(),
                rocs@ == front,
                output_sum@ == sc_sum(roc_blindings(rocs@).take(k as int)),
            decreases rocs@.len() - k,
        {
            output_sum = sc_add(&output_sum, rocs[k].revealed_commitment.blinding());
            proof {
                assert(roc_blindings(rocs@).take(k + 1 as int).drop_last() =~= roc_blindings(
                    rocs@,
                ).take(k as int));
                assert(roc_blindings(rocs@).take(k + 1 as int).last()
                    == rocs@[k as int].revealed_commitment.blinding@);
            }
            k = k + 1;
        }
        assert(roc_blindings(rocs@).take(rocs@.len() as int) =~= roc_blindings(rocs@));
        let correction = sc_sub(&input_sum, &output_sum);
        rocs.push(
            RevealedOutputCommitment {
                public_key: self.outputs[last_idx].public_key.duplicate(),
                revealed_commitment: RevealedCommitment {
                    value: self.outputs[last_idx].amount,
                    blinding: correction,
                },
            },
        );
        assert(rocs@.drop_last() =~= front);
        assert(roc_blindings(rocs@.drop_last()) =~= roc_blindings(front));
        proof {
            assert(roc_blindings(rocs@).drop_last() =~= roc_blindings(front));
            assert(roc_blindings(rocs@).last() == correction@);
            assert(sc_sum(roc_blindings(rocs@)) == sc_add_of(
                sc_sum(roc_blindings(front)),
                correction@,
            ));
        }
        rocs
    }

    /// Runs one range proof per output over a single shared transcript, in
    /// output order, binding all proofs of this transaction together.  Each
    /// output proof carries the recipient key, the Pedersen commitment of
    /// its revealed form, and proof bytes that verify in sequence over a
    /// fresh transcript with the same label; with the fixed 64-bit width
    /// and single party the prover cannot fail.
    fn output_range_proofs(&self, rocs: &Vec<RevealedOutputCommitment>) -> (r: Result<
        Vec<OutputProof>,
        Error,
    >)
        ensures
            r is Ok,
            r matches Ok(ps) ==> ps@.len() == rocs@.len() && (forall|i: int|
                0 <= i < ps@.len() ==> (#[trigger] ps@[i]).public_key@ == rocs@[i].public_key@
                    && ps@[i].commitment@ == rocs@[i].revealed_commitment.commit_spec())
                && rp_chain_ok(op_rp_pairs(ps@)),
    {
        let mut ts = RangeTranscript::new();
        let mut ps: Vec<OutputProof> = Vec::new();
        assert(op_rp_pairs(ps@) =~= Seq::<(Seq<u8>, Seq<u8>)>::empty());
        let mut i: usize = 0;
        while i < rocs.len()
            invariant
                i <= rocs@.len(),
                ps@.len() == i,
                forall|k: int| 0 <= k < i ==> (#[trigger] ps@[k]).public_key@
                    == rocs@[k].public_key@ && ps@[k].commitment@
                    == rocs@[k].revealed_commitment.commit_spec(),
                ts.pairs_view() == op_rp_pairs(ps@),
                rp_chain_ok(op_rp_pairs(ps@)),
            decreases rocs@.len() - i,
        {
            let ghost prev = op_rp_pairs(ps@);
            match ts.prove_step(
                rocs[i].revealed_commitment.value(),
                rocs[i].revealed_commitment.blinding(),
                RANGE_PROOF_BITS,
                RANGE_PROOF_PARTIES,
            ) {
                Ok(pr) => {
                    let (proof_bytes, commitment) = pr;
                    let ghost pair = (proof_bytes@, commitment@);
                    ps.push(
                        OutputProof {
                            public_key: rocs[i].public_key.duplicate(),
                            range_proof: proof_bytes,
                            commitment,
                        },
                    );
                    proof {
                        assert(op_rp_pairs(ps@) =~= prev.push(pair));
                        assert(op_rp_pairs(ps@).drop_last() =~= prev);
                    }
                },
                Err(_) => {
                    proof {
                        assert(false);
                    }
                    return Err(Error::RangeProofFailure);
                },
            }
            i = i + 1;
        }
        Ok(ps)
    }

    /// Signs the material: draws pseudo-commitments and output blindings,
    /// materialises the last output's blinding as the exact correction term,
    /// produces one range proof per output over a shared transcript, forms
    /// the canonical signing message, and signs one ring signature per
    /// input over that message.  Returns the transaction together with the
    /// revealed output commitments the sender must retain.
    pub fn sign(&self) -> (r: Result<(RingCtTransaction, Vec<RevealedCommitment>), Error>)
        requires
            self.wf(),
        ensures
            self.outputs@.len() == 0 <==> r == Err::<
                (RingCtTransaction, Vec<RevealedCommitment>),
                Error,
            >(Error::NoOutputs),
            self.outputs@.len() > 0 && self.inputs@.len() == 0 <==> r == Err::<
                (RingCtTransaction, Vec<RevealedCommitment>),
                Error,
            >(Error::NoInputs),
            r is Err ==> r->Err_0 == Error::NoOutputs || r->Err_0 == Error::NoInputs
                || r->Err_0 == Error::InvalidSignature,
            r matches Ok(t) ==> t.0.mlsags@.len() == self.inputs@.len() && t.0.outputs@.len()
                == self.outputs@.len() && t.1@.len() == self.outputs@.len(),
            r matches Ok(t) ==> forall|i: int|
                0 <= i < self.inputs@.len() ==> (#[trigger] t.0.mlsags@[i]).wf_sig()
                    && t.0.mlsags@[i].ring_views() == self.inputs@[i].ring_pk_spec()
                    && t.0.mlsags@[i].key_image@ == self.inputs@[i].true_input.key_image_spec(),
            r matches Ok(t) ==> forall|i: int|
                0 <= i < self.outputs@.len() ==> (#[trigger] t.0.outputs@[i]).public_key@
                    == self.outputs@[i].public_key@ && t.1@[i].value == self.outputs@[i].amount
                    && t.0.outputs@[i].commitment@ == g1_commit_of(
                    sc_of_u64(t.1@[i].value),
                    t.1@[i].blinding@,
                ),
            r matches Ok(t) ==> t.0.message_spec() == message_of(
                concat_lists(self.pk_lists()),
                self.ki_list(),
                pseudo_views(t.0.mlsags@),
                op_views(t.0.outputs@),
            ),
            r matches Ok(t) ==> forall|i: int|
                0 <= i < self.inputs@.len() ==> (#[trigger] t.0.mlsags@[i]).accepts(
                    t.0.message_spec(),
                    self.inputs@[i].ring_commitment_spec(),
                ),
            r matches Ok(t) ==> rp_chain_ok(op_rp_pairs(t.0.outputs@)),
            r matches Ok(t) ==> (sc_sum(self.input_value_scalars()) == sc_sum(
                self.output_value_scalars(),
            ) ==> g1_sum(pseudo_views(t.0.mlsags@)) == g1_sum(commitment_views(t.0.outputs@))),
            r matches Ok(t) ==> blinding_correction_holds(*self, t.0, t.1@),
    {
        if self.outputs.len() == 0 {
            return Err(Error::NoOutputs);
        }
        if self.inputs.len() == 0 {
            return Err(Error::NoInputs);
        }
        let revealed_pseudo = self.revealed_pseudo_commitments();
        let pseudo_commitments = self.pseudo_commitments(&revealed_pseudo);
        let rocs = self.revealed_output_commitments(&revealed_pseudo);
        let output_proofs = match self.output_range_proofs(&rocs) {
            Ok(ps) => ps,
            Err(_) => {
                proof {
                    assert(false);
                }
                return Err(Error::RangeProofFailure);
            },
        };
        let pks = self.public_keys();
        let kis = self.key_images();
        let msg = gen_message_for_signing(&pks, &kis, &pseudo_commitments, &output_proofs);
        let mut mlsags: Vec<MlsagSignature> = Vec::new();
        let mut i: usize = 0;
        while i < self.inputs.len()
            invariant
                self.wf(),
                self.inputs@.len() > 0,
                self.outputs@.len() > 0,
                i <= self.inputs@.len(),
                revealed_pseudo@.len() == self.inputs@.len(),
                mlsags@.len() == i,
                forall|k: int| 0 <= k < i ==> (#[trigger] mlsags@[k]).wf_sig()
                    && mlsags@[k].ring_views() == self.inputs@[k].ring_pk_spec()
                    && mlsags@[k].key_image@ == self.inputs@[k].true_input.key_image_spec()
                    && mlsags@[k].pseudo_commitment@ == revealed_pseudo@[k].commit_spec()
                    && mlsags@[k].accepts(msg@, self.inputs@[k].ring_commitment_spec()),
            decreases self.inputs@.len() - i,
        {
            match self.inputs[i].sign(&msg, &revealed_pseudo[i]) {
                Ok(sig) => {
                    mlsags.push(sig);
                },
                Err(_) => {
                    return Err(Error::InvalidSignature);
                },
            }
            i = i + 1;
        }
        let mut revealed: Vec<RevealedCommitment> = Vec::new();
        let mut j: usize = 0;
        while j < rocs.len()
            invariant
                j <= rocs@.len(),
                revealed@.len() == j,
                forall|k: int| 0 <= k < j ==> (#[trigger] revealed@[k]).value
                    == rocs@[k].revealed_commitment.value && revealed@[k].blinding@
                    == rocs@[k].revealed_commitment.blinding@,
            decreases rocs@.len() - j,
        {
            revealed.push(rocs[j].revealed_commitment.duplicate());
            j = j + 1;
        }
        let ghost in_vals = self.input_value_scalars();
        let ghost in_blinds = blinding_views(revealed_pseudo@);
        proof {
            assert(forall|k: int| 0 <= k < pseudo_commitments@.len()
                ==> views_of(pseudo_commitments@)[k] == g1_commit_of(in_vals[k], in_blinds[k]));
        }
        let in_sum = sum_commitments(&pseudo_commitments, Ghost(in_vals), Ghost(in_blinds));
        let mut out_pts: Vec<GroupPoint> = Vec::new();
        let mut oi: usize = 0;
        while oi < output_proofs.len()
            invariant
                oi <= output_proofs@.len(),
                out_pts@.len() == oi,
                forall|k: int| 0 <= k < oi ==> (#[trigger] out_pts@[k])@
                    == output_proofs@[k].commitment@,
            decreases output_proofs@.len() - oi,
        {
            out_pts.push(output_proofs[oi].commitment.duplicate());
            oi = oi + 1;
        }
        let ghost out_vals = self.output_value_scalars();
        let ghost out_blinds = roc_blindings(rocs@);
        proof {
            assert(forall|k: int| 0 <= k < out_pts@.len() ==> views_of(out_pts@)[k] == (
            #[trigger] out_pts@[k])@);
            assert(forall|k: int| 0 <= k < out_pts@.len() ==> views_of(out_pts@)[k]
                == g1_commit_of(out_vals[k], out_blinds[k]));
        }
        let out_sum = sum_commitments(&out_pts, Ghost(out_vals), Ghost(out_blinds));
        let tx = RingCtTransaction { mlsags, outputs: output_proofs };
        proof {
            assert(views_of(out_pts@) =~= commitment_views(tx.outputs@));
            assert(sc_sum(out_blinds) == sc_sum(in_blinds));
            if sc_sum(in_vals) == sc_sum(out_vals) {
                assert(in_sum@ == out_sum@);
                assert(g1_sum(pseudo_views(tx.mlsags@)) == g1_sum(commitment_views(tx.outputs@)))
                    by {
                    assert(views_of(pseudo_commitments@) =~= pseudo_views(tx.mlsags@));
                };
            }
            assert(ring_lists(tx.mlsags@) =~= self.pk_lists());
            assert(ki_views(tx.mlsags@) =~= self.ki_list());
            assert(views_of(pseudo_commitments@) =~= pseudo_views(tx.mlsags@));
            assert(msg@ == tx.message_spec());
            let pbs0 = blinding_views(revealed_pseudo@);
            assert(blinding_views(revealed@.drop_last()) =~= roc_blindings(rocs@.drop_last()));
            assert(pbs0.len() == self.inputs@.len() && (forall|k: int|
                0 <= k < pbs0.len() ==> (#[trigger] tx.mlsags@[k]).pseudo_commitment@
                    == g1_commit_of(
                    sc_of_u64(self.inputs@[k].true_input.revealed_commitment.value),
                    pbs0[k],
                )) && revealed@.last().blinding@ == sc_sub_of(
                sc_sum(pbs0),
                sc_sum(blinding_views(revealed@.drop_last())),
            ));
            assert(blinding_correction_holds(*self, tx, revealed@));
        }
        Ok((tx, revealed))
    }
}

// ---------------------------------------------------------------------------
// The signed transaction and its verifier.
// ---------------------------------------------------------------------------
/// A signed transaction: one ring signature per input and one output proof
/// per output, both in an order that the message, digest and verifier all
/// depend on.
pub struct RingCtTransaction {
    pub mlsags: Vec<MlsagSignature>,
    pub outputs: Vec<OutputProof>,
}

impl RingCtTransaction {
    /// The canonical byte encoding: every signature's canonical bytes, then
    /// every output proof's, in order.
    pub open spec fn bytes_spec(self) -> Seq<u8> {
        flat(self.mlsags@.map_values(|m: MlsagSignature| m.bytes_spec())) + flat(
            op_views(self.outputs@),
        )
    }

    /// Every ring signature accepts the recomputed message against its
    /// ring's supplied commitments.
    pub open spec fn all_sigs_accept(self, cs: Seq<Seq<Seq<u8>>>) -> bool {
        forall|i: int| 0 <= i < self.mlsags@.len() ==> (#[trigger] self.mlsags@[i]).accepts(
            self.message_spec(),
            cs[i],
        )
    }

    /// The canonical signing message, recomputed from the transaction
    /// alone.
    pub open spec fn message_spec(self) -> Seq<u8> {
        message_of(
            concat_lists(ring_lists(self.mlsags@)),
            ki_views(self.mlsags@),
            pseudo_views(self.mlsags@),
            op_views(self.outputs@),
        )
    }

    pub fn to_bytes(&self) -> (r: Vec<u8>)
        ensures
            r@ == self.bytes_spec(),
    {
        let ghost sig_bytes = self.mlsags@.map_values(|m: MlsagSignature| m.bytes_spec());
        let mut v: Vec<u8> = Vec::new();
        let mut i: usize = 0;
        while i < self.mlsags.len()
            invariant
                i <= self.mlsags@.len(),
                sig_bytes == self.mlsags@.map_values(|m: MlsagSignature| m.bytes_spec()),
                v@ == flat(sig_bytes.take(i as int)),
            decreases self.mlsags@.len() - i,
        {
            let b = self.mlsags[i].to_bytes();
            push_all(&mut v, &b);
            proof {
                lemma_flat_push(sig_bytes.take(i as int), sig_bytes[i as int]);
                assert(sig_bytes.take(i + 1 as int) =~= sig_bytes.take(i as int).push(
                    sig_bytes[i as int],
                ));
            }
            i = i + 1;
        }
        assert(sig_bytes.take(self.mlsags@.len() as int) =~= sig_bytes);
        let ghost head = v@;
        let mut j: usize = 0;
        while j < self.outputs.len()
            invariant
                j <= self.outputs@.len(),
                v@ == head + flat(op_views(self.outputs@).take(j as int)),
            decreases self.outputs@.len() - j,
        {
            let b = self.outputs[j].to_bytes();
            push_all(&mut v, &b);
            proof {
                lemma_flat_push(op_views(self.outputs@).take(j as int), op_views(self.outputs@)[j as int]);
                assert(op_views(self.outputs@).take(j + 1 as int) =~= op_views(
                    self.outputs@,
                ).take(j as int).push(op_views(self.outputs@)[j as int]));
            }
            j = j + 1;
        }
        assert(op_views(self.outputs@).take(self.outputs@.len() as int) =~= op_views(
            self.outputs@,
        ));
        v
    }

    /// The transaction digest: SHA3-256 over the canonical bytes.  A stable
    /// identifier, deterministic in the encoding; it is not the signing
    /// message.
    pub fn hash(&self) -> (r: Vec<u8>)
        ensures
            r@ == sha3_of(self.bytes_spec()),
            r@.len() == 32,
    {
        let b = self.to_bytes();
        sha3_256(&b)
    }

    /// All ring public keys across all signatures, flattened in order.
    fn flat_ring_keys(&self) -> (r: Vec<GroupPoint>)
        ensures
            views_of(r@) == concat_lists(ring_lists(self.mlsags@)),
    {
        let mut r: Vec<GroupPoint> = Vec::new();
        assert(ring_lists(self.mlsags@).take(0) =~= Seq::<Seq<Seq<u8>>>::empty());
        let mut i: usize = 0;
        while i < self.mlsags.len()
            invariant
                i <= self.mlsags@.len(),
                views_of(r@) == concat_lists(ring_lists(self.mlsags@).take(i as int)),
            decreases self.mlsags@.len() - i,
        {
            let pks = self.mlsags[i].public_keys();
            let mut j: usize = 0;
            let ghost mid = r@;
            while j < pks.len()
                invariant
                    j <= pks@.len(),
                    r@.len() == mid.len() + j,
                    forall|k: int| 0 <= k < mid.len() ==> views_of(r@)[k] == views_of(mid)[k],
                    forall|k: int| 0 <= k < j ==> views_of(r@)[mid.len() + k] == views_of(
                        pks@,
                    )[k],
                decreases pks@.len() - j,
            {
                r.push(pks[j].duplicate());
                j = j + 1;
            }
            proof {
                assert(views_of(r@) =~= views_of(mid) + views_of(pks@));
                lemma_concat_lists_push(
                    ring_lists(self.mlsags@).take(i as int),
                    ring_lists(self.mlsags@)[i as int],
                );
                assert(ring_lists(self.mlsags@).take(i + 1 as int) =~= ring_lists(
                    self.mlsags@,
                ).take(i as int).push(ring_lists(self.mlsags@)[i as int]));
            }
            i = i + 1;
        }
        assert(ring_lists(self.mlsags@).take(self.mlsags@.len() as int) =~= ring_lists(
            self.mlsags@,
        ));
        r
    }

    /// The key image of every signature, in order.
    fn key_image_points(&self) -> (r: Vec<GroupPoint>)
        ensures
            views_of(r@) == ki_views(self.mlsags@),
    {
        let mut r: Vec<GroupPoint> = Vec::new();
        let mut i: usize = 0;
        while i < self.mlsags.len()
            invariant
                i <= self.mlsags@.len(),
                r@.len() == i,
                forall|k: int| 0 <= k < i ==> (#[trigger] r@[k])@ == ki_views(self.mlsags@)[k],
            decreases self.mlsags@.len() - i,
        {
            r.push(self.mlsags[i].key_image.duplicate());
            i = i + 1;
        }
        assert(forall|k: int| 0 <= k < r@.len() ==> views_of(r@)[k] == (#[trigger] r@[k])@);
        assert(views_of(r@) =~= ki_views(self.mlsags@));
        r
    }

    /// The pseudo-commitment of every signature, in order.
    fn pseudo_commitment_points(&self) -> (r: Vec<GroupPoint>)
        ensures
            views_of(r@) == pseudo_views(self.mlsags@),
    {
        let mut r: Vec<GroupPoint> = Vec::new();
        let mut i: usize = 0;
        while i < self.mlsags.len()
            invariant
                i <= self.mlsags@.len(),
                r@.len() == i,
                forall|k: int| 0 <= k < i ==> (#[trigger] r@[k])@ == pseudo_views(self.mlsags@)[k],
            decreases self.mlsags@.len() - i,
        {
            r.push(self.mlsags[i].pseudo_commitment.duplicate());
            i = i + 1;
        }
        assert(forall|k: int| 0 <= k < r@.len() ==> views_of(r@)[k] == (#[trigger] r@[k])@);
        assert(views_of(r@) =~= pseudo_views(self.mlsags@));
        r
    }

    /// The commitment of every output proof, in order.
    fn output_commitment_points(&self) -> (r: Vec<GroupPoint>)
        ensures
            views_of(r@) == commitment_views(self.outputs@),
    {
        let mut r: Vec<GroupPoint> = Vec::new();
        let mut i: usize = 0;
        while i < self.outputs.len()
            invariant
                i <= self.outputs@.len(),
                r@.len() == i,
                forall|k: int| 0 <= k < i ==> (#[trigger] r@[k])@ == commitment_views(
                    self.outputs@,
                )[k],
            decreases self.outputs@.len() - i,
        {
            r.push(self.outputs[i].commitment.duplicate());
            i = i + 1;
        }
        assert(forall|k: int| 0 <= k < r@.len() ==> views_of(r@)[k] == (#[trigger] r@[k])@);
        assert(views_of(r@) =~= commitment_views(self.outputs@));
        r
    }

    /// Rebuilds the canonical signing message from the transaction alone;
    /// it equals the bytes the assembler signed.
    pub fn gen_message(&self) -> (r: Vec<u8>)
        ensures
            r@ == self.message_spec(),
    {
        let pks = self.flat_ring_keys();
        let kis = self.key_image_points();
        let pcs = self.pseudo_commitment_points();
        gen_message_for_signing(&pks, &kis, &pcs, &self.outputs)
    }

    /// Verifies the transaction against one list of public commitments per
    /// ring (looked up by the caller, positionally matching each ring's
    /// public keys): every ring signature against the recomputed message,
    /// every range proof over one shared transcript, then the structural
    /// checks in this order — at least one input, key images unique, ring
    /// public keys unique across all rings, and the pseudo-commitments
    /// summing to the output commitments.  Failure is reported as the first
    /// check, in that order, that rejects; when every signature accepts and
    /// the range-proof chain is valid, the outcome — including which
    /// structural error, or success — is pinned exactly.  The outside
    /// range-proof verifier batches its checks with a random combiner, so
    /// success does not certify the proofs it accepted, and the range-proof
    /// leg of the outcome is not a function of the arguments alone.
    pub fn verify(&self, public_commitments_per_ring: &Vec<Vec<GroupPoint>>) -> (r: Result<
        (),
        Error,
    >)
        requires
            public_commitments_per_ring@.len() == self.mlsags@.len(),
        ensures
            r is Ok ==> self.mlsags@.len() >= 1,
            r is Ok ==> all_distinct(ki_views(self.mlsags@)),
            r is Ok ==> all_distinct(concat_lists(ring_lists(self.mlsags@))),
            r is Ok ==> g1_sum(pseudo_views(self.mlsags@)) == g1_sum(
                commitment_views(self.outputs@),
            ),
            r == Err::<(), Error>(Error::InvalidSignature) <==> !self.all_sigs_accept(
                pcpr_views(public_commitments_per_ring@),
            ),
            r == Err::<(), Error>(Error::RangeProofFailure) ==> !rp_chain_ok(
                op_rp_pairs(self.outputs@),
            ),
            r == Err::<(), Error>(Error::TransactionMustHaveAnInput) ==> self.mlsags@.len() == 0,
            r == Err::<(), Error>(Error::KeyImageNotUniqueAcrossInputs) ==> !all_distinct(
                ki_views(self.mlsags@),
            ),
            r == Err::<(), Error>(Error::PublicKeyNotUniqueAcrossInputs) ==> !all_distinct(
                concat_lists(ring_lists(self.mlsags@)),
            ),
            r == Err::<(), Error>(Error::CommitmentsDoNotBalance) ==> g1_sum(
                pseudo_views(self.mlsags@),
            ) != g1_sum(commitment_views(self.outputs@)),
            self.all_sigs_accept(pcpr_views(public_commitments_per_ring@)) && rp_chain_ok(
                op_rp_pairs(self.outputs@),
            ) ==> (if self.mlsags@.len() == 0 {
                r == Err::<(), Error>(Error::TransactionMustHaveAnInput)
            } else if !all_distinct(ki_views(self.mlsags@)) {
                r == Err::<(), Error>(Error::KeyImageNotUniqueAcrossInputs)
            } else if !all_distinct(concat_lists(ring_lists(self.mlsags@))) {
                r == Err::<(), Error>(Error::PublicKeyNotUniqueAcrossInputs)
            } else if g1_sum(pseudo_views(self.mlsags@)) != g1_sum(
                commitment_views(self.outputs@),
            ) {
                r == Err::<(), Error>(Error::CommitmentsDoNotBalance)
            } else {
                r is Ok
            }),
    {
        let ghost cs = pcpr_views(public_commitments_per_ring@);
        let msg = self.gen_message();
        let mut i: usize = 0;
        while i < self.mlsags.len()
            invariant
                i <= self.mlsags@.len(),
                public_commitments_per_ring@.len() == self.mlsags@.len(),
                cs == pcpr_views(public_commitments_per_ring@),
                msg@ == self.message_spec(),
                forall|k: int| 0 <= k < i ==> (#[trigger] self.mlsags@[k]).accepts(
                    self.message_spec(),
                    cs[k],
                ),
            decreases self.mlsags@.len() - i,
        {
            let ghost ring_cs = views_of(public_commitments_per_ring@[i as int]@);
            match self.mlsags[i].verify(&msg, &public_commitments_per_ring[i]) {
                Ok(_) => {
                    proof {
                        assert(cs[i as int] == ring_cs);
                    }
                },
                Err(_) => {
                    proof {
                        assert(cs[i as int] == ring_cs);
                        assert(!self.mlsags@[i as int].accepts(self.message_spec(), cs[i as int]));
                        assert(!self.all_sigs_accept(cs));
                    }
                    return Err(Error::InvalidSignature);
                },
            }
            i = i + 1;
        }
        assert(self.all_sigs_accept(cs));
        let ghost pairs = op_rp_pairs(self.outputs@);
        let mut ts = RangeTranscript::new();
        assert(pairs.take(0) =~= Seq::<(Seq<u8>, Seq<u8>)>::empty());
        let mut oi: usize = 0;
        while oi < self.outputs.len()
            invariant
                oi <= self.outputs@.len(),
                pairs == op_rp_pairs(self.outputs@),
                ts.pairs_view() == pairs.take(oi as int),
                public_commitments_per_ring@.len() == self.mlsags@.len(),
                cs == pcpr_views(public_commitments_per_ring@),
                self.all_sigs_accept(cs),
            decreases self.outputs@.len() - oi,
        {
            let ghost pair = (self.outputs@[oi as int].range_proof@, self.outputs@[oi as int].commitment@);
            let step = ts.verify_step(
                self.outputs[oi].range_proof(),
                &self.outputs[oi].commitment,
                RANGE_PROOF_BITS,
                RANGE_PROOF_PARTIES,
            );
            match step {
                Ok(_) => {
                    proof {
                        assert(pairs.take(oi + 1 as int) =~= pairs.take(oi as int).push(pair));
                    }
                },
                Err(_) => {
                    proof {
                        if rp_chain_ok(pairs) {
                            lemma_rp_chain_prefix(pairs, oi + 1 as int);
                            assert(pairs.take(oi + 1 as int).drop_last() =~= pairs.take(
                                oi as int,
                            ));
                            assert(pairs.take(oi + 1 as int).last() == pair);
                            assert(false);
                        }
                    }
                    return Err(Error::RangeProofFailure);
                },
            }
            oi = oi + 1;
        }
        if self.mlsags.len() == 0 {
            return Err(Error::TransactionMustHaveAnInput);
        }
        let kis = self.key_image_points();
        if !all_distinct_points(&kis) {
            return Err(Error::KeyImageNotUniqueAcrossInputs);
        }
        let pks = self.flat_ring_keys();
        if !all_distinct_points(&pks) {
            return Err(Error::PublicKeyNotUniqueAcrossInputs);
        }
        let pcs = self.pseudo_commitment_points();
        let input_sum = sum_points(&pcs);
        let ocs = self.output_commitment_points();
        let output_sum = sum_points(&ocs);
        if input_sum.equals(&output_sum) {
            Ok(())
        } else {
            Err(Error::CommitmentsDoNotBalance)
        }
    }
}

/// Round-trip balance, the signature leg: the ring signatures of a freshly
/// signed transaction accept the recomputed message against the signing
/// material's own ring commitments, so a verifier handed exactly those
/// commitments, positionally per ring, passes the whole signature check.
/// Together with the valid range-proof chain that signing guarantees,
/// verification's outcome is then pinned by the structural checks alone.
pub proof fn lemma_round_trip_accepts(
    m: RingCtMaterial,
    tx: RingCtTransaction,
    cs: Seq<Seq<Seq<u8>>>,
)
    requires
        tx.mlsags@.len() == m.inputs@.len(),
        forall|i: int| 0 <= i < m.inputs@.len() ==> (#[trigger] tx.mlsags@[i]).accepts(
            tx.message_spec(),
            m.inputs@[i].ring_commitment_spec(),
        ),
        cs.len() == m.inputs@.len(),
        forall|i: int| 0 <= i < cs.len() ==> cs[i] == m.inputs@[i].ring_commitment_spec(),
    ensures
        tx.all_sigs_accept(cs),
{
}

/// The transaction digest is a function of the canonical byte encoding
/// alone: two transactions with equal bytes have equal digests.
pub proof fn lemma_hash_deterministic(a: RingCtTransaction, b: RingCtTransaction)
    requires
        a.bytes_spec() == b.bytes_spec(),
    ensures
        sha3_of(a.bytes_spec()) == sha3_of(b.bytes_spec()),
{
}

} // verus!
