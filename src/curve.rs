//! The groups G1, G2 and GT of BLS12-381 and the pairing between them. Each element is held
//! as its canonical uncompressed encoding; every operation decodes, calls the curve library,
//! and encodes the result.
use vstd::prelude::*;
use ark_bls12_381::{Bls12_381, Fr, G1Affine, G1Projective, G2Affine, G2Projective};
use ark_ec::pairing::{Pairing, PairingOutput};
use ark_ec::{Group, VariableBaseMSM};
use ark_ff::{BigInt, Zero};
use ark_poly::{EvaluationDomain, Radix2EvaluationDomain};
use ark_serialize::{CanonicalDeserialize, CanonicalSerialize};
use crate::scalar::{domain_size_ok, Scalar};

verus! {

/// Bytes of an uncompressed G1 element.
pub const G1_LEN: usize = 96;

/// Whether `CanonicalDeserialize::deserialize_uncompressed` (with validation) accepts the bytes
/// as a G1 element.
pub uninterp spec fn g1_decodes(b: Seq<u8>) -> bool;

/// An encoded G1 element: the right length and accepted by the decoder.
pub open spec fn is_g1(b: Seq<u8>) -> bool {
    b.len() == G1_LEN && g1_decodes(b)
}

/// Whether `CanonicalDeserialize::deserialize_uncompressed` accepts the bytes as a G2 element.
pub uninterp spec fn is_g2(b: Seq<u8>) -> bool;

/// Whether `CanonicalDeserialize::deserialize_uncompressed` accepts the bytes as a GT element.
pub uninterp spec fn is_gt(b: Seq<u8>) -> bool;

pub open spec fn all_g1(v: Seq<Vec<u8>>) -> bool {
    forall|i: int| 0 <= i < v.len() ==> #[trigger] is_g1(v[i]@)
}

pub open spec fn points(v: Seq<Vec<u8>>) -> Seq<Seq<u8>> {
    v.map_values(|p: Vec<u8>| p@)
}

/// The generator of G1.
pub uninterp spec fn g1_generator_of(unit: ()) -> Seq<u8>;
/// The generator of G2.
pub uninterp spec fn g2_generator_of(unit: ()) -> Seq<u8>;
/// `p * s` in G1, for the integer s.
pub uninterp spec fn g1_mul_of(p: Seq<u8>, s: int) -> Seq<u8>;
/// `a - b` in G1.
pub uninterp spec fn g1_sub_of(a: Seq<u8>, b: Seq<u8>) -> Seq<u8>;
/// The sum of `bases[i] * scalars[i]` in G1.
pub uninterp spec fn g1_msm_of(bases: Seq<Seq<u8>>, scalars: Seq<int>) -> Seq<u8>;
/// The G1 FFT over the domain of the given size.
pub uninterp spec fn g1_fft_of(size: nat, v: Seq<Seq<u8>>) -> Seq<Seq<u8>>;
/// The G1 inverse FFT over the domain of the given size.
pub uninterp spec fn g1_ifft_of(size: nat, v: Seq<Seq<u8>>) -> Seq<Seq<u8>>;
/// `p * s` in G2.
pub uninterp spec fn g2_mul_of(p: Seq<u8>, s: int) -> Seq<u8>;
/// `a - b` in G2.
pub uninterp spec fn g2_sub_of(a: Seq<u8>, b: Seq<u8>) -> Seq<u8>;
/// The pairing of a G1 and a G2 element.
pub uninterp spec fn pairing_of(a: Seq<u8>, b: Seq<u8>) -> Seq<u8>;
/// `p * s` in GT, written additively.
pub uninterp spec fn gt_mul_of(p: Seq<u8>, s: int) -> Seq<u8>;
/// `a + b` in GT, written additively.
pub uninterp spec fn gt_add_of(a: Seq<u8>, b: Seq<u8>) -> Seq<u8>;
/// The identity of GT.
pub uninterp spec fn gt_zero_of(unit: ()) -> Seq<u8>;

/// Relies on `CanonicalDeserialize::deserialize_uncompressed` for G1: whether the bytes decode
/// to a point of the prime-order subgroup.
#[verifier::external_body]
fn g1_decode_ok(b: &Vec<u8>) -> (r: bool)
    ensures
        r == g1_decodes(b@),
{
    G1Projective::deserialize_uncompressed(&b[..]).is_ok()
}

/// Whether the bytes are exactly one encoded G1 element.
pub fn check_g1(b: &Vec<u8>) -> (r: bool)
    ensures
        r == is_g1(b@),
{
    b.len() == G1_LEN && g1_decode_ok(b)
}

/// Relies on `Group::generator` for G1 and its uncompressed encoding.
#[verifier::external_body]
pub(crate) fn g1_generator() -> (r: Vec<u8>)
    ensures
        is_g1(r@),
        r@ == g1_generator_of(()),
{
    let mut out = Vec::new();
    G1Projective::generator().serialize_uncompressed(&mut out).unwrap();
    out
}

/// Relies on `Group::mul_bigint` for G1, which multiplies by the integer that the limbs spell.
#[verifier::external_body]
pub(crate) fn g1_mul(p: &Vec<u8>, s: &Scalar) -> (r: Vec<u8>)
    requires
        is_g1(p@),
    ensures
        is_g1(r@),
        r@ == g1_mul_of(p@, s.value()),
{
    let x = G1Projective::deserialize_uncompressed_unchecked(&p[..]).unwrap();
    let mut out = Vec::new();
    x.mul_bigint(s.limbs).serialize_uncompressed(&mut out).unwrap();
    out
}

/// Relies on subtraction in G1.
#[verifier::external_body]
pub(crate) fn g1_sub(a: &Vec<u8>, b: &Vec<u8>) -> (r: Vec<u8>)
    requires
        is_g1(a@),
        is_g1(b@),
    ensures
        is_g1(r@),
        r@ == g1_sub_of(a@, b@),
{
    let x = G1Projective::deserialize_uncompressed_unchecked(&a[..]).unwrap();
    let y = G1Projective::deserialize_uncompressed_unchecked(&b[..]).unwrap();
    let mut out = Vec::new();
    (x - y).serialize_uncompressed(&mut out).unwrap();
    out
}

/// Relies on `VariableBaseMSM::msm_bigint` for G1: the sum of each base times its scalar.
#[verifier::external_body]
pub(crate) fn g1_msm(bases: &Vec<Vec<u8>>, scalars: &Vec<Scalar>) -> (r: Vec<u8>)
    requires
        all_g1(bases@),
        bases.len() == scalars.len(),
    ensures
        is_g1(r@),
        r@ == g1_msm_of(points(bases@), crate::scalar::values(scalars@)),
{
    let b: Vec<G1Affine> = bases.iter().map(|p| G1Affine::deserialize_uncompressed_unchecked(&p[..]).unwrap()).collect();
    let s: Vec<BigInt<4>> = scalars.iter().map(|x| BigInt::new(x.limbs)).collect();
    let mut out = Vec::new();
    G1Projective::msm_bigint(&b, &s).serialize_uncompressed(&mut out).unwrap();
    out
}

/// Relies on `Radix2EvaluationDomain::fft` over G1 elements.
#[verifier::external_body]
pub(crate) fn g1_fft(size: usize, v: &Vec<Vec<u8>>) -> (r: Vec<Vec<u8>>)
    requires
        domain_size_ok(size as nat),
        v.len() == size,
        all_g1(v@),
    ensures
        r.len() == size,
        all_g1(r@),
        points(r@) == g1_fft_of(size as nat, points(v@)),
{
    let d = Radix2EvaluationDomain::<Fr>::new(size).unwrap();
    let g: Vec<G1Projective> = v.iter().map(|p| G1Projective::deserialize_uncompressed_unchecked(&p[..]).unwrap()).collect();
    d.fft(&g).iter().map(|x| { let mut out = Vec::new(); x.serialize_uncompressed(&mut out).unwrap(); out }).collect()
}

/// Relies on `Radix2EvaluationDomain::ifft` over G1 elements.
#[verifier::external_body]
pub(crate) fn g1_ifft(size: usize, v: &Vec<Vec<u8>>) -> (r: Vec<Vec<u8>>)
    requires
        domain_size_ok(size as nat),
        v.len() == size,
        all_g1(v@),
    ensures
        r.len() == size,
        all_g1(r@),
        points(r@) == g1_ifft_of(size as nat, points(v@)),
{
    let d = Radix2EvaluationDomain::<Fr>::new(size).unwrap();
    let g: Vec<G1Projective> = v.iter().map(|p| G1Projective::deserialize_uncompressed_unchecked(&p[..]).unwrap()).collect();
    d.ifft(&g).iter().map(|x| { let mut out = Vec::new(); x.serialize_uncompressed(&mut out).unwrap(); out }).collect()
}

/// Relies on `CanonicalDeserialize::deserialize_uncompressed` for G2: whether the bytes decode
/// to a point of the prime-order subgroup.
#[verifier::external_body]
pub(crate) fn check_g2(b: &Vec<u8>) -> (r: bool)
    ensures
        r == is_g2(b@),
{
    G2Projective::deserialize_uncompressed(&b[..]).is_ok()
}

/// Relies on `Group::generator` for G2 and its uncompressed encoding.
#[verifier::external_body]
pub(crate) fn g2_generator() -> (r: Vec<u8>)
    ensures
        is_g2(r@),
        r@ == g2_generator_of(()),
{
    let mut out = Vec::new();
    G2Projective::generator().serialize_uncompressed(&mut out).unwrap();
    out
}

/// Relies on `Group::mul_bigint` for G2.
#[verifier::external_body]
pub(crate) fn g2_mul(p: &Vec<u8>, s: &Scalar) -> (r: Vec<u8>)
    requires
        is_g2(p@),
    ensures
        is_g2(r@),
        r@ == g2_mul_of(p@, s.value()),
{
    let x = G2Projective::deserialize_uncompressed_unchecked(&p[..]).unwrap();
    let mut out = Vec::new();
    x.mul_bigint(s.limbs).serialize_uncompressed(&mut out).unwrap();
    out
}

/// Relies on subtraction in G2.
#[verifier::external_body]
pub(crate) fn g2_sub(a: &Vec<u8>, b: &Vec<u8>) -> (r: Vec<u8>)
    requires
        is_g2(a@),
        is_g2(b@),
    ensures
        is_g2(r@),
        r@ == g2_sub_of(a@, b@),
{
    let x = G2Projective::deserialize_uncompressed_unchecked(&a[..]).unwrap();
    let y = G2Projective::deserialize_uncompressed_unchecked(&b[..]).unwrap();
    let mut out = Vec::new();
    (x - y).serialize_uncompressed(&mut out).unwrap();
    out
}

/// Relies on `Pairing::pairing` for BLS12-381.
#[verifier::external_body]
pub(crate) fn pairing(a: &Vec<u8>, b: &Vec<u8>) -> (r: Vec<u8>)
    requires
        is_g1(a@),
        is_g2(b@),
    ensures
        is_gt(r@),
        r@ == pairing_of(a@, b@),
{
    let x = G1Affine::deserialize_uncompressed_unchecked(&a[..]).unwrap();
    let y = G2Affine::deserialize_uncompressed_unchecked(&b[..]).unwrap();
    let mut out = Vec::new();
    Bls12_381::pairing(x, y).serialize_uncompressed(&mut out).unwrap();
    out
}

/// Relies on `CanonicalDeserialize::deserialize_uncompressed` for the pairing's target group:
/// whether the bytes decode to an element of it.
#[verifier::external_body]
pub(crate) fn check_gt(b: &Vec<u8>) -> (r: bool)
    ensures
        r == is_gt(b@),
{
    PairingOutput::<Bls12_381>::deserialize_uncompressed(&b[..]).is_ok()
}

/// Relies on `Group::mul_bigint` for the pairing's target group.
#[verifier::external_body]
pub(crate) fn gt_mul(p: &Vec<u8>, s: &Scalar) -> (r: Vec<u8>)
    requires
        is_gt(p@),
    ensures
        is_gt(r@),
        r@ == gt_mul_of(p@, s.value()),
{
    let x = PairingOutput::<Bls12_381>::deserialize_uncompressed_unchecked(&p[..]).unwrap();
    let mut out = Vec::new();
    x.mul_bigint(s.limbs).serialize_uncompressed(&mut out).unwrap();
    out
}

/// Relies on the group law of the pairing's target group, written additively.
#[verifier::external_body]
pub(crate) fn gt_add(a: &Vec<u8>, b: &Vec<u8>) -> (r: Vec<u8>)
    requires
        is_gt(a@),
        is_gt(b@),
    ensures
        is_gt(r@),
        r@ == gt_add_of(a@, b@),
{
    let x = PairingOutput::<Bls12_381>::deserialize_uncompressed_unchecked(&a[..]).unwrap();
    let y = PairingOutput::<Bls12_381>::deserialize_uncompressed_unchecked(&b[..]).unwrap();
    let mut out = Vec::new();
    (x + y).serialize_uncompressed(&mut out).unwrap();
    out
}

/// Relies on `Zero::zero` for the pairing's target group: its identity.
#[verifier::external_body]
pub(crate) fn gt_zero() -> (r: Vec<u8>)
    ensures
        is_gt(r@),
        r@ == gt_zero_of(()),
{
    let mut out = Vec::new();
    PairingOutput::<Bls12_381>::zero().serialize_uncompressed(&mut out).unwrap();
    out
}

} // verus!
