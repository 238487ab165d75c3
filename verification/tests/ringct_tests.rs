use std::collections::BTreeMap;

use bls_bulletproofs::blstrs::{G1Affine, G1Projective, Scalar};
use bls_bulletproofs::group::ff::Field;
use bls_bulletproofs::group::{Curve, Group};
use bls_bulletproofs::rand::rngs::OsRng;
use bls_bulletproofs::PedersenGens;
use tiny_keccak::{Hasher, Sha3};

use ringct::commitment::RevealedCommitment;
use ringct::curve::{FieldScalar, GroupPoint};
use ringct::mlsag::{DecoyInput, MlsagMaterial, TrueInput};
use ringct::ringct::{Output, OutputProof, RingCtMaterial, RingCtTransaction};
use ringct::Error;

fn rand_point(rng: &mut OsRng) -> GroupPoint {
    let b = G1Projective::random(&mut *rng).to_affine().to_compressed().to_vec();
    GroupPoint::from_bytes(&b).unwrap()
}

fn rand_scalar(rng: &mut OsRng) -> FieldScalar {
    let b = Scalar::random(&mut *rng).to_bytes_le().to_vec();
    FieldScalar::from_bytes(&b).unwrap()
}

fn point_from_compressed(b: &[u8]) -> G1Affine {
    let arr: [u8; 48] = b.try_into().unwrap();
    G1Affine::from_compressed(&arr).unwrap()
}

#[derive(Default)]
struct TestLedger {
    commitments: BTreeMap<Vec<u8>, Vec<u8>>, // compressed public key -> compressed commitment
}

impl TestLedger {
    fn log(&mut self, public_key: &GroupPoint, commitment: &GroupPoint) {
        self.commitments
            .insert(public_key.to_bytes(), commitment.to_bytes());
    }

    fn lookup(&self, public_key: &GroupPoint) -> Option<GroupPoint> {
        self.commitments
            .get(public_key.as_bytes())
            .map(|b| GroupPoint::from_bytes(b).unwrap())
    }

    fn fetch_decoys(&self, n: usize, exclude: &[Vec<u8>]) -> Vec<DecoyInput> {
        self.commitments
            .iter()
            .filter(|(pk, _)| !exclude.contains(pk))
            .map(|(pk, c)| DecoyInput {
                public_key: GroupPoint::from_bytes(pk).unwrap(),
                commitment: GroupPoint::from_bytes(c).unwrap(),
            })
            .take(n)
            .collect()
    }
}

fn true_input(rng: &mut OsRng, value: u64, blinding: u64) -> TrueInput {
    TrueInput {
        secret_key: rand_scalar(rng),
        revealed_commitment: RevealedCommitment {
            value,
            blinding: FieldScalar::from_u64(blinding),
        },
    }
}

fn collect_ring_commitments(tx: &RingCtTransaction, ledger: &TestLedger) -> Vec<Vec<GroupPoint>> {
    tx.mlsags
        .iter()
        .map(|mlsag| {
            mlsag
                .public_keys()
                .iter()
                .map(|pk| ledger.lookup(pk).unwrap())
                .collect()
        })
        .collect()
}

#[test]
fn test_ringct_sign() {
    let mut rng = OsRng;

    let true_input = true_input(&mut rng, 3, 5);

    let mut ledger = TestLedger::default();
    ledger.log(
        &true_input.public_key(),
        &true_input.revealed_commitment.commit(),
    );
    ledger.log(&rand_point(&mut rng), &rand_point(&mut rng));
    ledger.log(&rand_point(&mut rng), &rand_point(&mut rng));

    let decoy_inputs = ledger.fetch_decoys(2, &[true_input.public_key().to_bytes()]);

    let ring_ct = RingCtMaterial {
        inputs: vec![MlsagMaterial::new(true_input, decoy_inputs)],
        outputs: vec![Output {
            public_key: rand_point(&mut rng),
            amount: 3,
        }],
    };

    let (signed_tx, _revealed_output_commitments) =
        ring_ct.sign().expect("Failed to sign transaction");

    let public_commitments = collect_ring_commitments(&signed_tx, &ledger);

    assert!(signed_tx.verify(&public_commitments).is_ok());
}

#[test]
fn sign_rejects_empty_inputs() {
    let mut rng = OsRng;
    let material = RingCtMaterial {
        inputs: vec![],
        outputs: vec![Output {
            public_key: rand_point(&mut rng),
            amount: 1,
        }],
    };
    assert!(matches!(material.sign(), Err(Error::NoInputs)));
}

#[test]
fn sign_rejects_empty_outputs() {
    let mut rng = OsRng;
    let ti = true_input(&mut rng, 2, 7);
    let material = RingCtMaterial {
        inputs: vec![MlsagMaterial::new(ti, vec![])],
        outputs: vec![],
    };
    assert!(matches!(material.sign(), Err(Error::NoOutputs)));
}

#[test]
fn verify_rejects_empty_transaction() {
    let tx = RingCtTransaction {
        mlsags: vec![],
        outputs: vec![],
    };
    assert!(matches!(
        tx.verify(&vec![]),
        Err(Error::TransactionMustHaveAnInput)
    ));
}

#[test]
fn verify_rejects_garbage_range_proof() {
    let mut rng = OsRng;
    let tx = RingCtTransaction {
        mlsags: vec![],
        outputs: vec![OutputProof {
            public_key: rand_point(&mut rng),
            range_proof: vec![1, 2, 3],
            commitment: rand_point(&mut rng),
        }],
    };
    assert!(matches!(tx.verify(&vec![]), Err(Error::RangeProofFailure)));
}

#[test]
fn verify_rejects_wrong_ring_commitment() {
    let mut rng = OsRng;
    let ti = true_input(&mut rng, 3, 5);

    let mut ledger = TestLedger::default();
    ledger.log(&ti.public_key(), &ti.revealed_commitment.commit());
    ledger.log(&rand_point(&mut rng), &rand_point(&mut rng));
    ledger.log(&rand_point(&mut rng), &rand_point(&mut rng));
    let decoys = ledger.fetch_decoys(2, &[ti.public_key().to_bytes()]);

    let material = RingCtMaterial {
        inputs: vec![MlsagMaterial::new(ti, decoys)],
        outputs: vec![Output {
            public_key: rand_point(&mut rng),
            amount: 3,
        }],
    };
    let (tx, _) = material.sign().unwrap();

    let mut public_commitments = collect_ring_commitments(&tx, &ledger);
    public_commitments[0][0] = rand_point(&mut rng);

    assert!(matches!(
        tx.verify(&public_commitments),
        Err(Error::InvalidSignature)
    ));
}

#[test]
fn verify_rejects_tampered_output_commitment() {
    let mut rng = OsRng;
    let ti = true_input(&mut rng, 3, 5);

    let mut ledger = TestLedger::default();
    ledger.log(&ti.public_key(), &ti.revealed_commitment.commit());
    ledger.log(&rand_point(&mut rng), &rand_point(&mut rng));
    ledger.log(&rand_point(&mut rng), &rand_point(&mut rng));
    let decoys = ledger.fetch_decoys(2, &[ti.public_key().to_bytes()]);

    let material = RingCtMaterial {
        inputs: vec![MlsagMaterial::new(ti, decoys)],
        outputs: vec![Output {
            public_key: rand_point(&mut rng),
            amount: 3,
        }],
    };
    let (tx, _) = material.sign().unwrap();
    let public_commitments = collect_ring_commitments(&tx, &ledger);

    let RingCtTransaction { mlsags, mut outputs } = tx;
    let op = outputs.remove(0);
    outputs.push(OutputProof {
        public_key: op.public_key,
        range_proof: op.range_proof,
        commitment: rand_point(&mut rng),
    });
    let tampered = RingCtTransaction { mlsags, outputs };

    let r = tampered.verify(&public_commitments);
    assert!(matches!(
        r,
        Err(Error::InvalidSignature)
            | Err(Error::RangeProofFailure)
            | Err(Error::CommitmentsDoNotBalance)
    ));
}

#[test]
fn verify_rejects_duplicate_key_images() {
    let mut rng = OsRng;
    let sk = rand_scalar(&mut rng);
    // Two inputs sharing the same secret key: their key images collide.
    let ti1 = TrueInput {
        secret_key: FieldScalar::from_bytes(sk.as_bytes()).unwrap(),
        revealed_commitment: RevealedCommitment {
            value: 3,
            blinding: FieldScalar::from_u64(5),
        },
    };
    let ti2 = TrueInput {
        secret_key: FieldScalar::from_bytes(sk.as_bytes()).unwrap(),
        revealed_commitment: RevealedCommitment {
            value: 3,
            blinding: FieldScalar::from_u64(5),
        },
    };

    let mut ledger = TestLedger::default();
    ledger.log(&ti1.public_key(), &ti1.revealed_commitment.commit());
    for _ in 0..4 {
        ledger.log(&rand_point(&mut rng), &rand_point(&mut rng));
    }
    let decoys = ledger.fetch_decoys(4, &[ti1.public_key().to_bytes()]);
    let (d1, d2) = {
        let mut it = decoys.into_iter();
        let a = vec![it.next().unwrap(), it.next().unwrap()];
        let b = vec![it.next().unwrap(), it.next().unwrap()];
        (a, b)
    };

    let material = RingCtMaterial {
        inputs: vec![MlsagMaterial::new(ti1, d1), MlsagMaterial::new(ti2, d2)],
        outputs: vec![Output {
            public_key: rand_point(&mut rng),
            amount: 6,
        }],
    };
    let (tx, _) = material.sign().unwrap();
    let public_commitments = collect_ring_commitments(&tx, &ledger);

    // The two rings share the true public key, but key images are checked
    // first.
    assert!(matches!(
        tx.verify(&public_commitments),
        Err(Error::KeyImageNotUniqueAcrossInputs)
    ));
}

#[test]
fn verify_rejects_shared_ring_public_key() {
    let mut rng = OsRng;
    let ti1 = true_input(&mut rng, 4, 11);
    let ti2 = true_input(&mut rng, 6, 13);

    let mut ledger = TestLedger::default();
    ledger.log(&ti1.public_key(), &ti1.revealed_commitment.commit());
    ledger.log(&ti2.public_key(), &ti2.revealed_commitment.commit());
    for _ in 0..2 {
        ledger.log(&rand_point(&mut rng), &rand_point(&mut rng));
    }
    // Both rings take the same two decoys: their flattened public keys
    // collide.
    let shared = ledger.fetch_decoys(
        2,
        &[ti1.public_key().to_bytes(), ti2.public_key().to_bytes()],
    );
    let shared_again = ledger.fetch_decoys(
        2,
        &[ti1.public_key().to_bytes(), ti2.public_key().to_bytes()],
    );

    let material = RingCtMaterial {
        inputs: vec![
            MlsagMaterial::new(ti1, shared),
            MlsagMaterial::new(ti2, shared_again),
        ],
        outputs: vec![Output {
            public_key: rand_point(&mut rng),
            amount: 10,
        }],
    };
    let (tx, _) = material.sign().unwrap();
    let public_commitments = collect_ring_commitments(&tx, &ledger);

    assert!(matches!(
        tx.verify(&public_commitments),
        Err(Error::PublicKeyNotUniqueAcrossInputs)
    ));
}

#[test]
fn two_inputs_two_outputs_balance() {
    let mut rng = OsRng;
    let ti1 = true_input(&mut rng, 4, 11);
    let ti2 = true_input(&mut rng, 6, 13);

    let mut ledger = TestLedger::default();
    ledger.log(&ti1.public_key(), &ti1.revealed_commitment.commit());
    ledger.log(&ti2.public_key(), &ti2.revealed_commitment.commit());
    for _ in 0..4 {
        ledger.log(&rand_point(&mut rng), &rand_point(&mut rng));
    }
    let decoys = ledger.fetch_decoys(
        4,
        &[ti1.public_key().to_bytes(), ti2.public_key().to_bytes()],
    );
    let (d1, d2) = {
        let mut it = decoys.into_iter();
        let a = vec![it.next().unwrap(), it.next().unwrap()];
        let b = vec![it.next().unwrap(), it.next().unwrap()];
        (a, b)
    };

    let material = RingCtMaterial {
        inputs: vec![MlsagMaterial::new(ti1, d1), MlsagMaterial::new(ti2, d2)],
        outputs: vec![
            Output {
                public_key: rand_point(&mut rng),
                amount: 4,
            },
            Output {
                public_key: rand_point(&mut rng),
                amount: 6,
            },
        ],
    };
    let (tx, revealed) = material.sign().unwrap();
    assert_eq!(revealed.len(), 2);
    assert_eq!(revealed[0].value(), 4);
    assert_eq!(revealed[1].value(), 6);

    let public_commitments = collect_ring_commitments(&tx, &ledger);
    assert!(tx.verify(&public_commitments).is_ok());

    // Pseudo-commitments and output commitments sum to the same group
    // element.
    let input_sum: G1Projective = tx
        .mlsags
        .iter()
        .map(|m| G1Projective::from(point_from_compressed(m.pseudo_commitment().as_bytes())))
        .sum();
    let output_sum: G1Projective = tx
        .outputs
        .iter()
        .map(|o| G1Projective::from(point_from_compressed(o.commitment().as_bytes())))
        .sum();
    assert_eq!(input_sum, output_sum);
}

#[test]
fn verify_rejects_value_imbalance() {
    let mut rng = OsRng;
    let ti1 = true_input(&mut rng, 4, 11);
    let ti2 = true_input(&mut rng, 6, 13);

    let mut ledger = TestLedger::default();
    ledger.log(&ti1.public_key(), &ti1.revealed_commitment.commit());
    ledger.log(&ti2.public_key(), &ti2.revealed_commitment.commit());
    for _ in 0..4 {
        ledger.log(&rand_point(&mut rng), &rand_point(&mut rng));
    }
    let decoys = ledger.fetch_decoys(
        4,
        &[ti1.public_key().to_bytes(), ti2.public_key().to_bytes()],
    );
    let (d1, d2) = {
        let mut it = decoys.into_iter();
        let a = vec![it.next().unwrap(), it.next().unwrap()];
        let b = vec![it.next().unwrap(), it.next().unwrap()];
        (a, b)
    };

    // Inputs total 10 but outputs total 11: blinding balance still holds by
    // construction, so the commitment balance check is what rejects.
    let material = RingCtMaterial {
        inputs: vec![MlsagMaterial::new(ti1, d1), MlsagMaterial::new(ti2, d2)],
        outputs: vec![
            Output {
                public_key: rand_point(&mut rng),
                amount: 4,
            },
            Output {
                public_key: rand_point(&mut rng),
                amount: 7,
            },
        ],
    };
    let (tx, _) = material.sign().unwrap();
    let public_commitments = collect_ring_commitments(&tx, &ledger);

    assert!(matches!(
        tx.verify(&public_commitments),
        Err(Error::CommitmentsDoNotBalance)
    ));
}

#[test]
fn malformed_encodings_are_rejected() {
    assert!(matches!(
        GroupPoint::from_bytes(&vec![0u8; 48]),
        Err(Error::MalformedEncoding)
    ));
    assert!(matches!(
        GroupPoint::from_bytes(&vec![0u8; 47]),
        Err(Error::MalformedEncoding)
    ));
    assert!(matches!(
        FieldScalar::from_bytes(&vec![0xffu8; 32]),
        Err(Error::MalformedEncoding)
    ));
    // A canonical point and scalar round-trip.
    let mut rng = OsRng;
    let p = rand_point(&mut rng);
    assert_eq!(GroupPoint::from_bytes(p.as_bytes()).unwrap().to_bytes(), p.to_bytes());
    let s = rand_scalar(&mut rng);
    assert_eq!(
        FieldScalar::from_bytes(s.as_bytes()).unwrap().as_bytes(),
        s.as_bytes()
    );
}

#[test]
fn commitment_matches_pedersen_generators() {
    // The library's commitment equals the Pedersen commitment computed
    // directly with the fixed generator pair.
    let rc = RevealedCommitment {
        value: 3,
        blinding: FieldScalar::from_u64(5),
    };
    let expected = PedersenGens::default()
        .commit(Scalar::from(3u64), Scalar::from(5u64))
        .to_affine()
        .to_compressed()
        .to_vec();
    assert_eq!(rc.commit().to_bytes(), expected);
}

#[test]
fn hash_is_sha3_of_canonical_bytes() {
    let mut rng = OsRng;
    let ti = true_input(&mut rng, 3, 5);
    let mut ledger = TestLedger::default();
    ledger.log(&ti.public_key(), &ti.revealed_commitment.commit());
    ledger.log(&rand_point(&mut rng), &rand_point(&mut rng));
    ledger.log(&rand_point(&mut rng), &rand_point(&mut rng));
    let decoys = ledger.fetch_decoys(2, &[ti.public_key().to_bytes()]);

    let material = RingCtMaterial {
        inputs: vec![MlsagMaterial::new(ti, decoys)],
        outputs: vec![Output {
            public_key: rand_point(&mut rng),
            amount: 3,
        }],
    };
    let (tx, _) = material.sign().unwrap();

    let mut sha3 = Sha3::v256();
    sha3.update(&tx.to_bytes());
    let mut expected = [0u8; 32];
    sha3.finalize(&mut expected);

    assert_eq!(tx.hash(), expected.to_vec());
    // Deterministic in the encoding.
    assert_eq!(tx.hash(), tx.hash());
}

#[test]
fn message_is_stable_and_binds_components() {
    let mut rng = OsRng;
    let ti = true_input(&mut rng, 3, 5);
    let mut ledger = TestLedger::default();
    ledger.log(&ti.public_key(), &ti.revealed_commitment.commit());
    ledger.log(&rand_point(&mut rng), &rand_point(&mut rng));
    ledger.log(&rand_point(&mut rng), &rand_point(&mut rng));
    let decoys = ledger.fetch_decoys(2, &[ti.public_key().to_bytes()]);

    let material = RingCtMaterial {
        inputs: vec![MlsagMaterial::new(ti, decoys)],
        outputs: vec![Output {
            public_key: rand_point(&mut rng),
            amount: 3,
        }],
    };
    let (tx, _) = material.sign().unwrap();

    let msg = tx.gen_message();
    assert_eq!(msg, tx.gen_message());
    // The message opens with the ring's public keys, in ring order.
    let ring = tx.mlsags[0].public_keys();
    assert_eq!(ring.len(), 3);
    for (i, pk) in ring.iter().enumerate() {
        assert_eq!(&msg[i * 48..(i + 1) * 48], pk.as_bytes().as_slice());
    }
}

#[test]
fn key_image_depends_on_secret_key_alone() {
    let mut rng = OsRng;
    let sk = rand_scalar(&mut rng);
    let a = TrueInput {
        secret_key: FieldScalar::from_bytes(sk.as_bytes()).unwrap(),
        revealed_commitment: RevealedCommitment {
            value: 1,
            blinding: FieldScalar::from_u64(2),
        },
    };
    let b = TrueInput {
        secret_key: FieldScalar::from_bytes(sk.as_bytes()).unwrap(),
        revealed_commitment: RevealedCommitment {
            value: 9,
            blinding: FieldScalar::from_u64(4),
        },
    };
    assert_eq!(a.key_image().to_bytes(), b.key_image().to_bytes());

    let c = true_input(&mut rng, 1, 2);
    assert_ne!(a.key_image().to_bytes(), c.key_image().to_bytes());
}

#[test]
fn single_member_ring_round_trips() {
    let mut rng = OsRng;
    let ti = true_input(&mut rng, 8, 21);
    let mut ledger = TestLedger::default();
    ledger.log(&ti.public_key(), &ti.revealed_commitment.commit());

    let material = RingCtMaterial {
        inputs: vec![MlsagMaterial::new(ti, vec![])],
        outputs: vec![Output {
            public_key: rand_point(&mut rng),
            amount: 8,
        }],
    };
    let (tx, _) = material.sign().unwrap();
    let public_commitments = collect_ring_commitments(&tx, &ledger);
    assert!(tx.verify(&public_commitments).is_ok());
}

#[test]
fn verify_rejects_tampered_ring_key_and_key_image() {
    let mut rng = OsRng;
    let ti = true_input(&mut rng, 3, 5);
    let mut ledger = TestLedger::default();
    ledger.log(&ti.public_key(), &ti.revealed_commitment.commit());
    ledger.log(&rand_point(&mut rng), &rand_point(&mut rng));
    ledger.log(&rand_point(&mut rng), &rand_point(&mut rng));
    let decoys = ledger.fetch_decoys(2, &[ti.public_key().to_bytes()]);

    let material = RingCtMaterial {
        inputs: vec![MlsagMaterial::new(ti, decoys)],
        outputs: vec![Output {
            public_key: rand_point(&mut rng),
            amount: 3,
        }],
    };
    let (tx, _) = material.sign().unwrap();
    let public_commitments = collect_ring_commitments(&tx, &ledger);

    // Replace one ring public key: the recomputed message and chain change.
    let (mut mlsags, outputs) = (tx.mlsags, tx.outputs);
    mlsags[0].ring[0] = rand_point(&mut rng);
    let tampered = RingCtTransaction { mlsags, outputs };
    assert!(matches!(
        tampered.verify(&public_commitments),
        Err(Error::InvalidSignature)
    ));

    // Replace the key image: same effect.
    let ti2 = true_input(&mut rng, 3, 5);
    let mut ledger2 = TestLedger::default();
    ledger2.log(&ti2.public_key(), &ti2.revealed_commitment.commit());
    ledger2.log(&rand_point(&mut rng), &rand_point(&mut rng));
    ledger2.log(&rand_point(&mut rng), &rand_point(&mut rng));
    let decoys2 = ledger2.fetch_decoys(2, &[ti2.public_key().to_bytes()]);
    let material2 = RingCtMaterial {
        inputs: vec![MlsagMaterial::new(ti2, decoys2)],
        outputs: vec![Output {
            public_key: rand_point(&mut rng),
            amount: 3,
        }],
    };
    let (tx2, _) = material2.sign().unwrap();
    let public_commitments2 = collect_ring_commitments(&tx2, &ledger2);
    let (mut mlsags2, outputs2) = (tx2.mlsags, tx2.outputs);
    mlsags2[0].key_image = rand_point(&mut rng);
    let tampered2 = RingCtTransaction {
        mlsags: mlsags2,
        outputs: outputs2,
    };
    assert!(matches!(
        tampered2.verify(&public_commitments2),
        Err(Error::InvalidSignature)
    ));
}

#[test]
fn sign_rejects_empty_material_as_missing_outputs() {
    // With both lists empty the outputs check comes first.
    let material = RingCtMaterial {
        inputs: vec![],
        outputs: vec![],
    };
    assert!(matches!(material.sign(), Err(Error::NoOutputs)));
}
