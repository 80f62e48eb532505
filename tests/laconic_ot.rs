use ark_bls12_381::{Bls12_381, Fr, G1Projective, G2Projective};
use ark_ec::pairing::{Pairing, PairingOutput};
use ark_ec::Group;
use ark_ff::{PrimeField, UniformRand};
use ark_poly::{EvaluationDomain, Radix2EvaluationDomain};
use ark_serialize::{CanonicalDeserialize, CanonicalSerialize};
use ark_std::test_rng;
use laconic::encap::{decrypt, encrypt};
use laconic::{CommitmentKey, LaconicOTRecv, LaconicOTSender, OtError, Scalar, SetupError, MSG_SIZE};

type Gt = PairingOutput<Bls12_381>;

fn scalar_from(f: Fr) -> Scalar {
    Scalar::from_limbs(f.into_bigint().0).unwrap()
}

fn draw(rng: &mut impl rand::Rng) -> Scalar {
    scalar_from(Fr::rand(rng))
}

fn gt_of(b: &[u8]) -> Gt {
    Gt::deserialize_uncompressed(b).unwrap()
}

fn gt_bytes(g: &Gt) -> Vec<u8> {
    let mut out = Vec::new();
    g.serialize_uncompressed(&mut out).unwrap();
    out
}

fn key(rng: &mut impl rand::Rng, n: usize) -> CommitmentKey {
    let tau = draw(rng);
    CommitmentKey::setup(&tau, n).unwrap()
}

/// Doubling tables of a pairing base: (base * 2^k) and (-base * 2^k) for k below len.
fn tables(base: &[u8], len: usize) -> (Vec<Vec<u8>>, Vec<(Vec<u8>, Vec<u8>)>) {
    let com = gt_of(base);
    let mut precomp = vec![(com, -com)];
    let mut squares = vec![com];
    for _ in 1..len {
        let sq = *precomp.last().unwrap().0.clone().double_in_place();
        let sq_inv = *precomp.last().unwrap().1.clone().double_in_place();
        squares.push(sq);
        precomp.push((sq, sq_inv));
    }
    (
        squares.iter().map(gt_bytes).collect(),
        precomp.iter().map(|(a, b)| (gt_bytes(a), gt_bytes(b))).collect(),
    )
}

#[test]
fn test_laconic_ot() {
    let rng = &mut test_rng();

    let degree = 4;
    let ck = key(rng, degree);

    let receiver = LaconicOTRecv::new(&ck, &[false, true, false, true]).unwrap();
    let sender = LaconicOTSender::new(&ck, &receiver.commitment()).unwrap();

    let m0 = [0u8; MSG_SIZE];
    let m1 = [1u8; MSG_SIZE];

    // precompute pairing
    let (com0, com1) = sender.pairing_bases();

    // test normal send
    let msg = sender.send(0, m0, m1, &draw(rng), &draw(rng));
    let res = receiver.recv(0, &msg);
    assert_eq!(res, m0);

    // test without precomputation
    let msg = sender
        .send_precompute_pairings(1, m0, m1, &com0, &com1, &draw(rng), &draw(rng))
        .unwrap();
    let res = receiver.recv(1, &msg);
    assert_eq!(res, m1);

    // precompute naf data
    let (com0_squares, com0_precomp) = tables(&com0, 381);
    let (com1_squares, com1_precomp) = tables(&com1, 381);

    // test with precompute squares
    let msg = sender
        .send_precompute_squares(2, m0, m1, &com0_squares, &com1_squares, &draw(rng), &draw(rng))
        .unwrap();
    let res = receiver.recv(2, &msg);
    assert_eq!(res, m0);

    // test with precompute naf
    let msg = sender
        .send_precompute_naf(3, m0, m1, &com0_precomp, &com1_precomp, &draw(rng), &draw(rng))
        .unwrap();
    let res = receiver.recv(3, &msg);
    assert_eq!(res, m1);
}

#[test]
fn test_serialize_deserialize() {
    let rng = &mut test_rng();

    let degree = 4;
    let ck = key(rng, degree);

    let receiver = LaconicOTRecv::new(&ck, &[false, true, false, true]).unwrap();

    // Serialize the receiver
    let serialized = receiver.serialize();

    // Deserialize the receiver
    let deserialized_receiver = LaconicOTRecv::deserialize(&serialized, &ck).unwrap();

    // Check that the deserialized receiver matches the one it was written from
    assert_eq!(receiver.bits, deserialized_receiver.bits);
    assert_eq!(receiver.com, deserialized_receiver.com);
    assert_eq!(receiver.qs, deserialized_receiver.qs);
}

#[test]
fn every_position_opens_its_own_bit() {
    let rng = &mut test_rng();
    let ck = key(rng, 8);
    let bits = [true, false, false, true, true];
    let receiver = LaconicOTRecv::new(&ck, &bits).unwrap();
    let sender = LaconicOTSender::new(&ck, &receiver.commitment()).unwrap();
    let m0 = [7u8; MSG_SIZE];
    let m1 = *b"sixteen byte msg";
    for (i, b) in bits.iter().enumerate() {
        let msg = sender.send(i, m0, m1, &draw(rng), &draw(rng));
        assert_eq!(receiver.recv(i, &msg), if *b { m1 } else { m0 });
    }
}

#[test]
fn concrete_scenario_four_points() {
    let rng = &mut test_rng();
    let ck = key(rng, 4);
    let receiver = LaconicOTRecv::new(&ck, &[false, true, false, true]).unwrap();
    let sender = LaconicOTSender::new(&ck, &receiver.commitment()).unwrap();
    let m0 = [0x11u8; MSG_SIZE];
    let m1 = [0x22u8; MSG_SIZE];
    let expected = [m0, m1, m0, m1];
    for i in 0..4 {
        let msg = sender.send(i, m0, m1, &draw(rng), &draw(rng));
        assert_eq!(receiver.recv(i, &msg), expected[i]);
    }
}

#[test]
fn the_other_slot_stays_hidden() {
    let rng = &mut test_rng();
    let ck = key(rng, 4);
    let receiver = LaconicOTRecv::new(&ck, &[false, true]).unwrap();
    let sender = LaconicOTSender::new(&ck, &receiver.commitment()).unwrap();
    let m0 = [0u8; MSG_SIZE];
    let m1 = [1u8; MSG_SIZE];
    let msg = sender.send(0, m0, m1, &draw(rng), &draw(rng));
    // a receiver whose bit were 1 would open slot 1 with the same opening: garbage
    let mut flipped = receiver.clone();
    flipped.bits[0] = true;
    let got = flipped.recv(0, &msg);
    assert_ne!(got, m1);
    assert_ne!(got, m0);
}

fn check_variants_agree(i: usize) {
    let rng = &mut test_rng();
    let ck = key(rng, 4);
    let receiver = LaconicOTRecv::new(&ck, &[true, false, true, false]).unwrap();
    let sender = LaconicOTSender::new(&ck, &receiver.commitment()).unwrap();
    let m0 = [3u8; MSG_SIZE];
    let m1 = [4u8; MSG_SIZE];
    let (com0, com1) = sender.pairing_bases();
    let (s0, p0) = tables(&com0, 256);
    let (s1, p1) = tables(&com1, 256);
    let want = if i % 2 == 0 { m1 } else { m0 };
    let a = sender.send(i, m0, m1, &draw(rng), &draw(rng));
    let b = sender.send_precompute_pairings(i, m0, m1, &com0, &com1, &draw(rng), &draw(rng)).unwrap();
    let c = sender.send_precompute_squares(i, m0, m1, &s0, &s1, &draw(rng), &draw(rng)).unwrap();
    let d = sender.send_precompute_naf(i, m0, m1, &p0, &p1, &draw(rng), &draw(rng)).unwrap();
    for msg in [a, b, c, d] {
        assert_eq!(receiver.recv(i, &msg), want);
    }
}

#[test]
fn cross_variant_equivalence() {
    check_variants_agree(0);
}

#[test]
fn cross_variant_equivalence_bit_false() {
    check_variants_agree(1);
}

#[test]
fn rerandomized_sends_differ_and_decrypt() {
    let rng = &mut test_rng();
    let ck = key(rng, 4);
    let receiver = LaconicOTRecv::new(&ck, &[true]).unwrap();
    let sender = LaconicOTSender::new(&ck, &receiver.commitment()).unwrap();
    let m0 = [9u8; MSG_SIZE];
    let m1 = [5u8; MSG_SIZE];
    let a = sender.send(0, m0, m1, &draw(rng), &draw(rng));
    let b = sender.send(0, m0, m1, &draw(rng), &draw(rng));
    assert_ne!(a.h[0].0, b.h[0].0);
    assert_ne!(a.h[1].1, b.h[1].1);
    assert_eq!(receiver.recv(0, &a), m1);
    assert_eq!(receiver.recv(0, &b), m1);
}

#[test]
fn capacity_boundary() {
    let rng = &mut test_rng();
    let ck = key(rng, 4);
    assert!(LaconicOTRecv::new(&ck, &[true; 4]).is_ok());
    assert!(matches!(LaconicOTRecv::new(&ck, &[true; 5]), Err(OtError::Capacity)));
    assert!(LaconicOTRecv::new(&ck, &[]).is_ok());
}

#[test]
fn setup_rejects_unsupported_sizes() {
    let rng = &mut test_rng();
    let tau = draw(rng);
    assert!(matches!(CommitmentKey::setup(&tau, 0), Err(SetupError::UnsupportedSize)));
    assert!(matches!(CommitmentKey::setup(&tau, 3), Err(SetupError::UnsupportedSize)));
    assert!(matches!(CommitmentKey::setup(&tau, 1usize << 32), Err(SetupError::UnsupportedSize)));
    let ck = CommitmentKey::setup(&tau, 1).unwrap();
    assert_eq!(ck.size, 1);
    assert_eq!(ck.u.len(), 1);
    assert_eq!(ck.y.len(), 2);
}

#[test]
fn setup_builds_lagrange_commitments_and_trapdoor() {
    let rng = &mut test_rng();
    let tau_f = Fr::rand(rng);
    let tau = scalar_from(tau_f);
    let ck = CommitmentKey::setup(&tau, 4).unwrap();
    let domain = Radix2EvaluationDomain::<Fr>::new(4).unwrap();
    let lag = domain.evaluate_all_lagrange_coefficients(tau_f);
    for i in 0..4 {
        let mut want = Vec::new();
        (G1Projective::generator() * lag[i]).serialize_uncompressed(&mut want).unwrap();
        assert_eq!(ck.u[i], want);
    }
    let sum: G1Projective = ck.u.iter().map(|p| G1Projective::deserialize_uncompressed(&p[..]).unwrap()).sum();
    let mut g1 = Vec::new();
    sum.serialize_uncompressed(&mut g1).unwrap();
    assert_eq!(ck.g1, g1);
    let mut r = Vec::new();
    (G2Projective::generator() * tau_f).serialize_uncompressed(&mut r).unwrap();
    assert_eq!(ck.r, r);
}

#[test]
fn openings_satisfy_the_pairing_equation() {
    // e(com - v_i * g1, g2) == e(q_i, r - x_i * g2) at every domain point
    let rng = &mut test_rng();
    let ck = key(rng, 8);
    let vals: Vec<Scalar> = (0..8).map(|_| draw(rng)).collect();
    let com = G1Projective::deserialize_uncompressed(&ck.commit(&vals)[..]).unwrap();
    let qs = ck.open_all(&vals);
    let g2 = G2Projective::deserialize_uncompressed(&ck.g2[..]).unwrap();
    let r = G2Projective::deserialize_uncompressed(&ck.r[..]).unwrap();
    let domain = Radix2EvaluationDomain::<Fr>::new(8).unwrap();
    for i in 0..8 {
        let v = Fr::from_bigint(ark_ff::BigInt::new(vals[i].limbs)).unwrap();
        let q = G1Projective::deserialize_uncompressed(&qs[i][..]).unwrap();
        let lhs = Bls12_381::pairing(com - G1Projective::generator() * v, g2);
        let rhs = Bls12_381::pairing(q, r - g2 * domain.element(i));
        assert_eq!(lhs, rhs);
    }
}

#[test]
fn deserialize_rejects_malformed_bytes() {
    let rng = &mut test_rng();
    let ck = key(rng, 4);
    let receiver = LaconicOTRecv::new(&ck, &[false, true]).unwrap();
    let good = receiver.serialize();
    assert_eq!(good.len(), 16 + 96 * 5 + 2);

    let mut bad_bit = good.clone();
    *bad_bit.last_mut().unwrap() = 2;
    assert!(matches!(LaconicOTRecv::deserialize(&bad_bit, &ck), Err(OtError::Decode)));

    let truncated = &good[..good.len() - 1];
    assert!(matches!(LaconicOTRecv::deserialize(truncated, &ck), Err(OtError::Decode)));

    let mut bad_point = good.clone();
    bad_point[20] ^= 0xff;
    assert!(matches!(LaconicOTRecv::deserialize(&bad_point, &ck), Err(OtError::Decode)));

    let other = key(rng, 8);
    assert!(matches!(LaconicOTRecv::deserialize(&good, &other), Err(OtError::Decode)));

    assert!(matches!(LaconicOTRecv::deserialize(&[], &ck), Err(OtError::Decode)));
}

#[test]
fn serialized_layout() {
    let rng = &mut test_rng();
    let ck = key(rng, 2);
    let receiver = LaconicOTRecv::new(&ck, &[true]).unwrap();
    let bytes = receiver.serialize();
    assert_eq!(&bytes[0..8], &2u64.to_le_bytes());
    assert_eq!(&bytes[8..16], &1u64.to_le_bytes());
    assert_eq!(&bytes[16..112], &receiver.com[..]);
    assert_eq!(&bytes[112..208], &receiver.qs[0][..]);
    assert_eq!(&bytes[208..304], &receiver.qs[1][..]);
    assert_eq!(bytes[304], 1);
}

#[test]
fn sender_rejects_a_malformed_commitment() {
    let rng = &mut test_rng();
    let ck = key(rng, 4);
    assert!(matches!(LaconicOTSender::new(&ck, &vec![0u8; 10]), Err(OtError::Decode)));
    assert!(matches!(LaconicOTSender::new(&ck, &vec![0xffu8; 96]), Err(OtError::Decode)));
}

#[test]
fn naf_table_too_short_gives_none() {
    let rng = &mut test_rng();
    let ck = key(rng, 4);
    let receiver = LaconicOTRecv::new(&ck, &[true]).unwrap();
    let sender = LaconicOTSender::new(&ck, &receiver.commitment()).unwrap();
    let (com0, com1) = sender.pairing_bases();
    let (_, p0) = tables(&com0, 8);
    let (_, p1) = tables(&com1, 8);
    let r = draw(rng);
    assert!(sender.send_precompute_naf(0, [0; MSG_SIZE], [1; MSG_SIZE], &p0, &p1, &r, &r).is_none());
}

#[test]
fn encrypt_is_xor_with_blake3_keystream() {
    let pad = vec![1u8, 2, 3, 4, 5];
    let msg = [0xa5u8; MSG_SIZE];
    let mut hsh = blake3::Hasher::new();
    hsh.update(&pad);
    let mut ks = [0u8; MSG_SIZE];
    hsh.finalize_xof().fill(&mut ks);
    let ct = encrypt(&pad, &msg);
    for i in 0..MSG_SIZE {
        assert_eq!(ct[i], ks[i] ^ msg[i]);
    }
    assert_ne!(ct, msg);
    assert_eq!(decrypt(&pad, &ct), msg);
}

#[test]
fn scalar_limbs_must_be_canonical() {
    let modulus = Fr::MODULUS.0;
    assert!(Scalar::from_limbs(modulus).is_none());
    let mut below = modulus;
    below[0] -= 1;
    assert!(Scalar::from_limbs(below).is_some());
    assert!(Scalar::from_limbs([u64::MAX; 4]).is_none());
    assert!(Scalar::from_u64(1).check_bit());
    assert!(!Scalar::from_u64(2).check_bit());
    assert!(!Scalar { limbs: [1, 1, 0, 0] }.check_bit());
}

#[test]
fn receiver_keeps_bits_and_pads_with_non_bits() {
    let rng = &mut test_rng();
    let ck = key(rng, 4);
    let receiver = LaconicOTRecv::new(&ck, &[true, false]).unwrap();
    assert_eq!(receiver.bits, vec![true, false]);
    assert_eq!(receiver.qs.len(), 4);
    // a commitment to bits alone, without random padding, differs
    let plain = ck.commit(&vec![Scalar::from_u64(1), Scalar::zero(), Scalar::zero(), Scalar::zero()]);
    assert_ne!(receiver.com, plain);
}

#[test]
fn precompute_variants_reject_malformed_tables() {
    let rng = &mut test_rng();
    let ck = key(rng, 4);
    let receiver = LaconicOTRecv::new(&ck, &[true]).unwrap();
    let sender = LaconicOTSender::new(&ck, &receiver.commitment()).unwrap();
    let (com0, com1) = sender.pairing_bases();
    let junk = vec![0xffu8; 576];
    let r = draw(rng);
    assert!(sender.send_precompute_pairings(0, [0; MSG_SIZE], [1; MSG_SIZE], &junk, &com1, &r, &r).is_none());
    let (mut s0, _) = tables(&com0, 256);
    let (s1, _) = tables(&com1, 256);
    s0[3] = junk;
    assert!(sender.send_precompute_squares(0, [0; MSG_SIZE], [1; MSG_SIZE], &s0, &s1, &r, &r).is_none());
}
