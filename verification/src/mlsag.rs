//! The MLSAG ring-signature layer: per-input signing material that hides the
//! true input among decoys, and the resulting linkable ring signature.
//!
//! A signature over a ring of `n` members carries one response pair per
//! member and an initial challenge; verification walks the challenge chain
//! once around the ring and accepts exactly when it closes on the initial
//! challenge.  The key image is a deterministic function of the secret key
//! alone and serves as the double-spend tag.
use vstd::prelude::*;

use crate::bytes::push_all;
use crate::commitment::RevealedCommitment;
use crate::curve::{
    g1_add, g1_add_of, g1_base_mul, g1_base_mul_of, g1_commit, g1_commit_of, g1_mul, g1_mul_of,
    g1_sub, g1_sub_of, random_index, sc_mul, sc_of_u64, sc_random, sc_sub, sha3_256, sha3_of,
    views_of, FieldScalar, GroupPoint,
};

verus! {

/// The double-spend tag belonging to a secret key: the Pedersen commitment
/// to the key under blinding zero, a fixed-base multiple of the value
/// generator and so independent of the public-key base.
pub open spec fn key_image_of(sk: Seq<u8>) -> Seq<u8> {
    g1_commit_of(sk, sc_of_u64(0))
}

/// The ring hash mapped into the scalar field: a SHA3-256 digest with its
/// last byte cleared, which every scalar below the group order admits.
pub open spec fn challenge_of(m: Seq<u8>) -> Seq<u8> {
    sha3_of(m).subrange(0, 31).push(0u8)
}

/// One link of the challenge chain: the next challenge hashes the message
/// together with the three ring equations at member `pk` (public-key layer
/// on the fixed generator, commitment layer on the same generator, key-image
/// layer on the value generator).
pub open spec fn link_of(
    msg: Seq<u8>,
    s1: Seq<u8>,
    s2: Seq<u8>,
    c: Seq<u8>,
    pk: Seq<u8>,
    d: Seq<u8>,
    ki: Seq<u8>,
) -> Seq<u8> {
    challenge_of(
        msg + g1_add_of(g1_base_mul_of(s1), g1_mul_of(c, pk)) + g1_add_of(
            g1_base_mul_of(s2),
            g1_mul_of(c, d),
        ) + g1_add_of(g1_commit_of(s1, sc_of_u64(0)), g1_mul_of(c, ki)),
    )
}

/// Maps a byte string into the scalar field as [`challenge_of`] describes.
pub fn challenge_scalar(m: &Vec<u8>) -> (r: FieldScalar)
    ensures
        r@ == challenge_of(m@),
{
    let h = sha3_256(m);
    let mut masked: Vec<u8> = Vec::new();
    let mut i: usize = 0;
    while i < 31
        invariant
            i <= 31,
            h@.len() == 32,
            h@ == sha3_of(m@),
            masked@ == h@.subrange(0, i as int),
        decreases 31 - i,
    {
        masked.push(h[i]);
        assert(h@.subrange(0, i + 1 as int) =~= h@.subrange(0, i as int).push(h@[i as int]));
        i = i + 1;
    }
    masked.push(0u8);
    match FieldScalar::from_bytes(&masked) {
        Ok(s) => s,
        Err(_) => {
            proof {
                assert(false);
            }
            FieldScalar::from_u64(0)
        },
    }
}

/// Computes one link of the challenge chain, exactly as [`link_of`] states.
fn compute_link(
    msg: &Vec<u8>,
    s1: &FieldScalar,
    s2: &FieldScalar,
    c: &FieldScalar,
    pk: &GroupPoint,
    d: &GroupPoint,
    ki: &GroupPoint,
) -> (r: FieldScalar)
    ensures
        r@ == link_of(msg@, s1@, s2@, c@, pk@, d@, ki@),
{
    let a = g1_add(&g1_base_mul(s1), &g1_mul(c, pk));
    let b = g1_add(&g1_base_mul(s2), &g1_mul(c, d));
    let zero = FieldScalar::from_u64(0);
    let e = g1_add(&g1_commit(s1, &zero), &g1_mul(c, ki));
    let mut buf: Vec<u8> = Vec::new();
    push_all(&mut buf, msg);
    push_all(&mut buf, a.as_bytes());
    push_all(&mut buf, b.as_bytes());
    push_all(&mut buf, e.as_bytes());
    challenge_scalar(&buf)
}

/// The true input being spent: its secret key and the opening of the
/// commitment the ledger holds for it.
pub struct TrueInput {
    pub secret_key: FieldScalar,
    pub revealed_commitment: RevealedCommitment,
}

impl TrueInput {
    /// The public key: the secret key times the fixed generator.
    pub open spec fn public_key_spec(self) -> Seq<u8> {
        g1_base_mul_of(self.secret_key@)
    }

    /// The double-spend tag of this input.
    pub open spec fn key_image_spec(self) -> Seq<u8> {
        key_image_of(self.secret_key@)
    }

    pub fn public_key(&self) -> (r: GroupPoint)
        ensures
            r@ == self.public_key_spec(),
    {
        g1_base_mul(&self.secret_key)
    }

    /// The key image: a deterministic function of the secret key alone.
    pub fn key_image(&self) -> (r: GroupPoint)
        ensures
            r@ == self.key_image_spec(),
    {
        let zero = FieldScalar::from_u64(0);
        g1_commit(&self.secret_key, &zero)
    }

    /// A fresh commitment to the true amount under a new uniform blinding.
    pub fn random_pseudo_commitment(&self) -> (r: RevealedCommitment)
        ensures
            r.value == self.revealed_commitment.value,
    {
        RevealedCommitment::from_value(self.revealed_commitment.value)
    }
}

/// Key images depend on the secret key alone: two inputs with the same
/// secret key always carry the same key image, however their rings differ.
pub proof fn lemma_key_image_deterministic(a: TrueInput, b: TrueInput)
    requires
        a.secret_key@ == b.secret_key@,
    ensures
        a.key_image_spec() == b.key_image_spec(),
{
}

/// A decoy ring member: a public key and the public commitment the ledger
/// associates with it.
pub struct DecoyInput {
    pub public_key: GroupPoint,
    pub commitment: GroupPoint,
}

/// Per-input signing material: the true input, the decoys, and the position
/// the true input takes within the ring.
pub struct MlsagMaterial {
    pub true_input: TrueInput,
    pub decoy_inputs: Vec<DecoyInput>,
    pub pi: usize,
}

impl MlsagMaterial {
    /// The ring size: every decoy plus the true input.
    pub open spec fn ring_len(self) -> int {
        self.decoy_inputs@.len() as int + 1
    }

    /// The true index lies within the ring, and the ring is small enough for
    /// index arithmetic.
    pub open spec fn wf(self) -> bool {
        self.pi < self.ring_len() && self.decoy_inputs@.len() < usize::MAX / 2
    }

    /// The ring's public keys in order: the decoys with the true key spliced
    /// in at position `pi`.
    pub open spec fn ring_pk_spec(self) -> Seq<Seq<u8>> {
        Seq::new(
            self.ring_len() as nat,
            |i: int|
                if i < self.pi {
                    self.decoy_inputs@[i].public_key@
                } else if i == self.pi {
                    self.true_input.public_key_spec()
                } else {
                    self.decoy_inputs@[i - 1].public_key@
                },
        )
    }

    /// The ring's public commitments, in the same order as the public keys.
    pub open spec fn ring_commitment_spec(self) -> Seq<Seq<u8>> {
        Seq::new(
            self.ring_len() as nat,
            |i: int|
                if i < self.pi {
                    self.decoy_inputs@[i].commitment@
                } else if i == self.pi {
                    self.true_input.revealed_commitment.commit_spec()
                } else {
                    self.decoy_inputs@[i - 1].commitment@
                },
        )
    }

    /// Bundles a true input with decoys, placing the true input at a
    /// uniformly drawn ring position.
    pub fn new(true_input: TrueInput, decoy_inputs: Vec<DecoyInput>) -> (r: MlsagMaterial)
        requires
            decoy_inputs@.len() < usize::MAX / 2,
        ensures
            r.wf(),
            r.true_input == true_input,
            r.decoy_inputs == decoy_inputs,
    {
        let pi = random_index(decoy_inputs.len() + 1);
        MlsagMaterial { true_input, decoy_inputs, pi }
    }

    /// The ring's public keys, in ring order.
    pub fn public_keys(&self) -> (r: Vec<GroupPoint>)
        requires
            self.wf(),
        ensures
            views_of(r@) == self.ring_pk_spec(),
    {
        let mut r: Vec<GroupPoint> = Vec::new();
        let mut i: usize = 0;
        while i < self.pi
            invariant
                self.wf(),
                i <= self.pi,
                r@.len() == i,
                forall|k: int| 0 <= k < i ==> views_of(r@)[k] == self.ring_pk_spec()[k],
            decreases self.pi - i,
        {
            r.push(self.decoy_inputs[i].public_key.duplicate());
            i = i + 1;
        }
        r.push(self.true_input.public_key());
        i = i + 1;
        while i < self.decoy_inputs.len() + 1
            invariant
                self.wf(),
                self.pi < i <= self.decoy_inputs@.len() + 1,
                r@.len() == i,
                forall|k: int| 0 <= k < i ==> views_of(r@)[k] == self.ring_pk_spec()[k],
            decreases self.decoy_inputs@.len() + 1 - i,
        {
            r.push(self.decoy_inputs[i - 1].public_key.duplicate());
            i = i + 1;
        }
        assert(views_of(r@) =~= self.ring_pk_spec());
        r
    }

    /// The ring's public commitments, in ring order.
    fn ring_commitments(&self) -> (r: Vec<GroupPoint>)
        requires
            self.wf(),
        ensures
            views_of(r@) == self.ring_commitment_spec(),
    {
        let mut r: Vec<GroupPoint> = Vec::new();
        let mut i: usize = 0;
        while i < self.pi
            invariant
                self.wf(),
                i <= self.pi,
                r@.len() == i,
                forall|k: int| 0 <= k < i ==> views_of(r@)[k] == self.ring_commitment_spec()[k],
            decreases self.pi - i,
        {
            r.push(self.decoy_inputs[i].commitment.duplicate());
            i = i + 1;
        }
        r.push(self.true_input.revealed_commitment.commit());
        i = i + 1;
        while i < self.decoy_inputs.len() + 1
            invariant
                self.wf(),
                self.pi < i <= self.decoy_inputs@.len() + 1,
                r@.len() == i,
                forall|k: int| 0 <= k < i ==> views_of(r@)[k] == self.ring_commitment_spec()[k],
            decreases self.decoy_inputs@.len() + 1 - i,
        {
            r.push(self.decoy_inputs[i - 1].commitment.duplicate());
            i = i + 1;
        }
        assert(views_of(r@) =~= self.ring_commitment_spec());
        r
    }

    /// Signs `msg` for this ring: produces a signature whose ring is exactly
    /// this material's ring, whose key image belongs to the true secret key,
    /// and whose pseudo-commitment is the commitment of `revealed_pseudo`.
    /// The produced signature is checked against this material's own ring
    /// commitments before it is returned, so on success it is one that
    /// verification accepts; a signature failing that check is never
    /// returned.
    pub fn sign(&self, msg: &Vec<u8>, revealed_pseudo: &RevealedCommitment) -> (r: Result<
        MlsagSignature,
        crate::Error,
    >)
        requires
            self.wf(),
        ensures
            r matches Ok(s) ==> s.wf_sig() && s.ring@.len() == self.ring_len() && s.ring_views()
                == self.ring_pk_spec() && s.key_image@ == self.true_input.key_image_spec()
                && s.pseudo_commitment@ == revealed_pseudo.commit_spec() && s.accepts(
                msg@,
                self.ring_commitment_spec(),
            ),
            r is Err ==> r == Err::<MlsagSignature, crate::Error>(crate::Error::InvalidSignature),
    {
        let n = self.decoy_inputs.len() + 1;
        let ring = self.public_keys();
        let ring_cs = self.ring_commitments();
        let pseudo = revealed_pseudo.commit();
        let key_image = self.true_input.key_image();
        let z = sc_sub(&self.true_input.revealed_commitment.blinding, &revealed_pseudo.blinding);
        proof {
            assert(views_of(ring@).len() == ring@.len());
            assert(views_of(ring_cs@).len() == ring_cs@.len());
        }
        let mut d: Vec<GroupPoint> = Vec::new();
        let mut i: usize = 0;
        while i < n
            invariant
                i <= n,
                n == ring_cs@.len(),
                d@.len() == i,
            decreases n - i,
        {
            d.push(g1_sub(&ring_cs[i], &pseudo));
            i = i + 1;
        }
        let alpha1 = sc_random();
        let alpha2 = sc_random();
        let zero = FieldScalar::from_u64(0);
        let a0 = g1_base_mul(&alpha1);
        let b0 = g1_base_mul(&alpha2);
        let e0 = g1_commit(&alpha1, &zero);
        let mut buf: Vec<u8> = Vec::new();
        push_all(&mut buf, msg);
        push_all(&mut buf, a0.as_bytes());
        push_all(&mut buf, b0.as_bytes());
        push_all(&mut buf, e0.as_bytes());
        let mut chal: Vec<FieldScalar> = Vec::new();
        chal.push(challenge_scalar(&buf));
        let mut strav: Vec<(FieldScalar, FieldScalar)> = Vec::new();
        let mut m: usize = 1;
        while m < n
            invariant
                self.wf(),
                1 <= m <= n,
                n == self.decoy_inputs@.len() + 1,
                n == ring@.len(),
                n == d@.len(),
                chal@.len() == m,
                strav@.len() == m - 1,
            decreases n - m,
        {
            let i2 = (self.pi + m) % n;
            let s1 = sc_random();
            let s2 = sc_random();
            let cnext = compute_link(msg, &s1, &s2, &chal[m - 1], &ring[i2], &d[i2], &key_image);
            chal.push(cnext);
            strav.push((s1, s2));
            m = m + 1;
        }
        let s1_pi = sc_sub(&alpha1, &sc_mul(&chal[n - 1], &self.true_input.secret_key));
        let s2_pi = sc_sub(&alpha2, &sc_mul(&chal[n - 1], &z));
        strav.push((s1_pi, s2_pi));
        let mut responses: Vec<(FieldScalar, FieldScalar)> = Vec::new();
        let mut j: usize = 0;
        while j < n
            invariant
                self.wf(),
                j <= n,
                n == self.decoy_inputs@.len() + 1,
                strav@.len() == n,
                responses@.len() == j,
            decreases n - j,
        {
            let k = (j + (n - 1 - self.pi)) % n;
            let pair = (strav[k].0.duplicate(), strav[k].1.duplicate());
            responses.push(pair);
            j = j + 1;
        }
        let c0 = chal[n - 1 - self.pi].duplicate();
        let sig = MlsagSignature { c0, responses, key_image, ring, pseudo_commitment: pseudo };
        match sig.verify(msg, &ring_cs) {
            Ok(_) => Ok(sig),
            Err(_) => Err(crate::Error::InvalidSignature),
        }
    }
}

/// A linkable ring signature over one input: the full ring of public keys,
/// the key image, the pseudo-commitment this input contributed, the initial
/// challenge and one response pair per ring member.
pub struct MlsagSignature {
    pub c0: FieldScalar,
    pub responses: Vec<(FieldScalar, FieldScalar)>,
    pub key_image: GroupPoint,
    pub ring: Vec<GroupPoint>,
    pub pseudo_commitment: GroupPoint,
}

impl MlsagSignature {
    /// The ring's public keys, as byte strings.
    pub open spec fn ring_views(self) -> Seq<Seq<u8>> {
        views_of(self.ring@)
    }

    /// The signature is structurally sound: a non-empty ring with one
    /// response pair per member.
    pub open spec fn wf_sig(self) -> bool {
        self.ring@.len() >= 1 && self.responses@.len() == self.ring@.len()
    }

    /// The challenge after walking links `0..i` of the ring, starting from
    /// the initial challenge; `cs` are the ring's public commitments.
    pub open spec fn chain(self, msg: Seq<u8>, cs: Seq<Seq<u8>>, i: int) -> Seq<u8>
        decreases i,
    {
        if i <= 0 {
            self.c0@
        } else {
            link_of(
                msg,
                self.responses@[i - 1].0@,
                self.responses@[i - 1].1@,
                self.chain(msg, cs, i - 1),
                self.ring@[i - 1]@,
                g1_sub_of(cs[i - 1], self.pseudo_commitment@),
                self.key_image@,
            )
        }
    }

    /// What verification checks: the signature is structurally sound, one
    /// commitment was supplied per ring member, and the challenge chain over
    /// the whole ring closes on the initial challenge.
    pub open spec fn accepts(self, msg: Seq<u8>, cs: Seq<Seq<u8>>) -> bool {
        self.wf_sig() && cs.len() == self.ring@.len() && self.chain(
            msg,
            cs,
            self.ring@.len() as int,
        ) == self.c0@
    }

    /// The ring's public keys, in ring order.
    pub fn public_keys(&self) -> (r: Vec<GroupPoint>)
        ensures
            views_of(r@) == self.ring_views(),
    {
        let mut r: Vec<GroupPoint> = Vec::new();
        let mut i: usize = 0;
        while i < self.ring.len()
            invariant
                i <= self.ring@.len(),
                r@.len() == i,
                forall|k: int| 0 <= k < i ==> views_of(r@)[k] == self.ring_views()[k],
            decreases self.ring@.len() - i,
        {
            r.push(self.ring[i].duplicate());
            i = i + 1;
        }
        assert(views_of(r@) =~= self.ring_views());
        r
    }

    /// The pseudo-commitment this input contributed to the balance.
    pub fn pseudo_commitment(&self) -> (r: GroupPoint)
        ensures
            r@ == self.pseudo_commitment@,
    {
        self.pseudo_commitment.duplicate()
    }

    /// The canonical byte encoding: ring keys, key image, pseudo-commitment,
    /// initial challenge, then every response pair, all concatenated.
    pub open spec fn bytes_spec(self) -> Seq<u8> {
        crate::bytes::flat(self.ring_views()) + self.key_image@ + self.pseudo_commitment@
            + self.c0@ + crate::bytes::flat(resp_views(self.responses@))
    }

    pub fn to_bytes(&self) -> (r: Vec<u8>)
        ensures
            r@ == self.bytes_spec(),
    {
        let mut out: Vec<u8> = Vec::new();
        let mut i: usize = 0;
        while i < self.ring.len()
            invariant
                i <= self.ring@.len(),
                out@ == crate::bytes::flat(self.ring_views().take(i as int)),
            decreases self.ring@.len() - i,
        {
            push_all(&mut out, self.ring[i].as_bytes());
            proof {
                crate::bytes::lemma_flat_push(self.ring_views().take(i as int), self.ring@[i as int]@);
                assert(self.ring_views().take(i + 1 as int) =~= self.ring_views().take(
                    i as int,
                ).push(self.ring@[i as int]@));
            }
            i = i + 1;
        }
        assert(self.ring_views().take(self.ring@.len() as int) =~= self.ring_views());
        push_all(&mut out, self.key_image.as_bytes());
        push_all(&mut out, self.pseudo_commitment.as_bytes());
        push_all(&mut out, self.c0.as_bytes());
        let ghost head = out@;
        let mut j: usize = 0;
        while j < self.responses.len()
            invariant
                j <= self.responses@.len(),
                out@ == head + crate::bytes::flat(resp_views(self.responses@).take(j as int)),
            decreases self.responses@.len() - j,
        {
            push_all(&mut out, self.responses[j].0.as_bytes());
            push_all(&mut out, self.responses[j].1.as_bytes());
            proof {
                crate::bytes::lemma_flat_push(
                    resp_views(self.responses@).take(j as int),
                    resp_views(self.responses@)[j as int],
                );
                assert(resp_views(self.responses@).take(j + 1 as int) =~= resp_views(
                    self.responses@,
                ).take(j as int).push(resp_views(self.responses@)[j as int]));
            }
            j = j + 1;
        }
        assert(resp_views(self.responses@).take(self.responses@.len() as int) =~= resp_views(
            self.responses@,
        ));
        out
    }

    /// Verifies the signature against a message and the ring's public
    /// commitments: Ok exactly when [`accepts`](Self::accepts) holds.
    pub fn verify(&self, msg: &Vec<u8>, public_commitments: &Vec<GroupPoint>) -> (r: Result<
        (),
        crate::Error,
    >)
        ensures
            r is Ok <==> self.accepts(msg@, views_of(public_commitments@)),
            r is Err ==> r == Err::<(), crate::Error>(crate::Error::InvalidSignature),
    {
        let n = self.ring.len();
        if n == 0 || self.responses.len() != n || public_commitments.len() != n {
            return Err(crate::Error::InvalidSignature);
        }
        let ghost cs = views_of(public_commitments@);
        let mut c = self.c0.duplicate();
        let mut i: usize = 0;
        while i < n
            invariant
                i <= n,
                n == self.ring@.len(),
                n == self.responses@.len(),
                n == public_commitments@.len(),
                cs == views_of(public_commitments@),
                c@ == self.chain(msg@, cs, i as int),
            decreases n - i,
        {
            let dpt = g1_sub(&public_commitments[i], &self.pseudo_commitment);
            c = compute_link(
                msg,
                &self.responses[i].0,
                &self.responses[i].1,
                &c,
                &self.ring[i],
                &dpt,
                &self.key_image,
            );
            i = i + 1;
        }
        if c.equals(&self.c0) {
            Ok(())
        } else {
            Err(crate::Error::InvalidSignature)
        }
    }
}

/// The byte strings of a list of response pairs, each pair concatenated.
pub open spec fn resp_views(rs: Seq<(FieldScalar, FieldScalar)>) -> Seq<Seq<u8>> {
    Seq::new(rs.len(), |i: int| rs[i].0@ + rs[i].1@)
}

} // verus!
