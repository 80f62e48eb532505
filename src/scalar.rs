//! Elements of the BLS12-381 scalar field, held as four little-endian 64-bit limbs,
//! and the field operations that the protocol asks of the curve library.
use vstd::prelude::*;
use ark_ff::{BigInt, PrimeField, UniformRand};
use ark_poly::{EvaluationDomain, Radix2EvaluationDomain};

verus! {

/// Limbs of the scalar field's modulus r, least significant first.
pub const MODULUS_0: u64 = 0xffff_ffff_0000_0001;
pub const MODULUS_1: u64 = 0x53bd_a402_fffe_5bfe;
pub const MODULUS_2: u64 = 0x3339_d808_09a1_d805;
pub const MODULUS_3: u64 = 0x73ed_a753_299d_7d48;

/// The largest evaluation domain that the scalar field supports: 2 to the two-adicity of r - 1.
pub const MAX_DOMAIN: u64 = 0x1_0000_0000;

pub open spec fn limb_base() -> int {
    0x1_0000_0000_0000_0000
}

/// The integer whose little-endian limbs are l0, l1, l2, l3.
pub open spec fn limbs_value(l0: u64, l1: u64, l2: u64, l3: u64) -> int {
    l0 as int + limb_base() * (l1 as int + limb_base() * (l2 as int + limb_base() * l3 as int))
}

pub open spec fn modulus() -> int {
    limbs_value(MODULUS_0, MODULUS_1, MODULUS_2, MODULUS_3)
}

pub open spec fn is_pow2(n: nat) -> bool
    decreases n,
{
    if n == 1 {
        true
    } else if n < 1 || n % 2 == 1 {
        false
    } else {
        is_pow2(n / 2)
    }
}

/// A domain size that the scalar field supports: a power of two no larger than `MAX_DOMAIN`.
pub open spec fn domain_size_ok(n: nat) -> bool {
    is_pow2(n) && n <= MAX_DOMAIN
}

/// An element of the scalar field, in canonical form when `wf` holds.
#[derive(Clone, Copy, Debug, PartialEq, Eq)]
pub struct Scalar {
    pub limbs: [u64; 4],
}

impl Scalar {
    /// The integer that the limbs spell.
    pub open spec fn value(self) -> int {
        limbs_value(self.limbs[0], self.limbs[1], self.limbs[2], self.limbs[3])
    }

    /// The limbs are the canonical representative, below the modulus.
    pub open spec fn wf(self) -> bool {
        self.value() < modulus()
    }

    pub open spec fn is_bit(self) -> bool {
        self.value() == 0 || self.value() == 1
    }

    pub fn zero() -> (r: Scalar)
        ensures
            r.value() == 0,
            r.wf(),
    {
        Scalar { limbs: [0, 0, 0, 0] }
    }

    pub fn from_u64(v: u64) -> (r: Scalar)
        ensures
            r.value() == v,
            r.wf(),
    {
        let r = Scalar { limbs: [v, 0, 0, 0] };
        assert(r.value() == v as int) by {
            assert(limb_base() * (0 + limb_base() * (0 + limb_base() * 0)) == 0) by (nonlinear_arith);
        }
        assert(modulus() > 0x1_0000_0000_0000_0000) by (nonlinear_arith);
        r
    }

    /// The field element 1 if `b` holds, else 0.
    pub fn from_bool(b: bool) -> (r: Scalar)
        ensures
            r.value() == (if b { 1int } else { 0int }),
            r.wf(),
    {
        if b {
            Scalar::from_u64(1)
        } else {
            Scalar::from_u64(0)
        }
    }

    /// Whether the value is 0 or 1.
    pub fn check_bit(&self) -> (r: bool)
        ensures
            r == self.is_bit(),
    {
        let l = self.limbs;
        let r = l[1] == 0 && l[2] == 0 && l[3] == 0 && l[0] <= 1;
        proof {
            lemma_limbs_value_bounds(l[0], l[1], l[2], l[3]);
        }
        r
    }

    /// Whether the limbs are canonical, below the modulus.
    pub fn check_wf(&self) -> (r: bool)
        ensures
            r == self.wf(),
    {
        let l = self.limbs;
        proof {
            lemma_limbs_lex(l[0], l[1], l[2], l[3], MODULUS_0, MODULUS_1, MODULUS_2, MODULUS_3);
        }
        if l[3] != MODULUS_3 {
            l[3] < MODULUS_3
        } else if l[2] != MODULUS_2 {
            l[2] < MODULUS_2
        } else if l[1] != MODULUS_1 {
            l[1] < MODULUS_1
        } else {
            l[0] < MODULUS_0
        }
    }

    /// The scalar with the given limbs, if they are canonical.
    pub fn from_limbs(limbs: [u64; 4]) -> (r: Option<Scalar>)
        ensures
            r is Some <==> (Scalar { limbs }).wf(),
            r is Some ==> r.unwrap().limbs == limbs,
    {
        let s = Scalar { limbs };
        if s.check_wf() {
            Some(s)
        } else {
            None
        }
    }

    /// Bit `i` of the limbs, least significant first, for `i` below 256.
    pub open spec fn bit(self, i: int) -> bool {
        (self.limbs[i / 64] >> ((i % 64) as u64)) & 1 == 1
    }
}

proof fn lemma_limbs_value_bounds(l0: u64, l1: u64, l2: u64, l3: u64)
    ensures
        (limbs_value(l0, l1, l2, l3) == 0 || limbs_value(l0, l1, l2, l3) == 1) <==> (l1 == 0
            && l2 == 0 && l3 == 0 && l0 <= 1),
        limbs_value(l0, l1, l2, l3) >= 0,
{
    let b = limb_base();
    let t3 = l3 as int;
    let t2 = l2 as int + b * t3;
    let t1 = l1 as int + b * t2;
    assert(t2 >= 0 && t1 >= 0) by (nonlinear_arith)
        requires
            t3 >= 0,
            t2 == l2 as int + b * t3,
            t1 == l1 as int + b * t2,
            b > 0,
            l1 >= 0,
            l2 >= 0,
    ;
    assert(t1 > 0 ==> b * t1 >= b) by (nonlinear_arith)
        requires
            b > 0,
    ;
    assert(t2 > 0 ==> b * t2 >= b) by (nonlinear_arith)
        requires
            b > 0,
    ;
    assert(t3 > 0 ==> b * t3 >= b) by (nonlinear_arith)
        requires
            b > 0,
    ;
}

/// Two-limb comparison: the high limb decides unless equal.
proof fn lemma_two_lex(lo: int, hi: int, lo2: int, hi2: int)
    requires
        0 <= lo < limb_base(),
        0 <= lo2 < limb_base(),
        hi >= 0,
        hi2 >= 0,
    ensures
        (lo + limb_base() * hi < lo2 + limb_base() * hi2) <==> (hi < hi2 || (hi == hi2 && lo
            < lo2)),
{
    let b = limb_base();
    if hi < hi2 {
        assert(b * hi + b <= b * hi2) by (nonlinear_arith)
            requires
                hi < hi2,
                b > 0,
        ;
    } else if hi > hi2 {
        assert(b * hi2 + b <= b * hi) by (nonlinear_arith)
            requires
                hi > hi2,
                b > 0,
        ;
    }
}

proof fn lemma_limbs_lex(a0: u64, a1: u64, a2: u64, a3: u64, b0: u64, b1: u64, b2: u64, b3: u64)
    ensures
        (limbs_value(a0, a1, a2, a3) < limbs_value(b0, b1, b2, b3)) <==> (a3 < b3 || (a3 == b3
            && (a2 < b2 || (a2 == b2 && (a1 < b1 || (a1 == b1 && a0 < b0)))))),
{
    let b = limb_base();
    let x2 = a2 as int + b * a3 as int;
    let y2 = b2 as int + b * b3 as int;
    let x1 = a1 as int + b * x2;
    let y1 = b1 as int + b * y2;
    assert(x2 >= 0 && y2 >= 0 && x1 >= 0 && y1 >= 0) by (nonlinear_arith)
        requires
            x2 == a2 as int + b * a3 as int,
            y2 == b2 as int + b * b3 as int,
            x1 == a1 as int + b * x2,
            y1 == b1 as int + b * y2,
            b > 0,
            a1 >= 0,
            a2 >= 0,
            a3 >= 0,
            b1 >= 0,
            b2 >= 0,
            b3 >= 0,
    ;
    lemma_two_lex(a2 as int, a3 as int, b2 as int, b3 as int);
    lemma_two_lex(a1 as int, x2, b1 as int, y2);
    lemma_two_lex(a0 as int, x1, b0 as int, y1);
    assert(x2 == y2 <==> (a3 == b3 && a2 == b2)) by {
        lemma_two_lex(a2 as int, a3 as int, b2 as int, b3 as int);
        lemma_two_lex(b2 as int, b3 as int, a2 as int, a3 as int);
    }
    assert(x1 == y1 <==> (x2 == y2 && a1 == b1)) by {
        lemma_two_lex(a1 as int, x2, b1 as int, y2);
        lemma_two_lex(b1 as int, y2, a1 as int, x2);
    }
}

/// What `Radix2EvaluationDomain::fft` of the given size returns on the given values.
pub uninterp spec fn fft_of(size: nat, v: Seq<int>) -> Seq<int>;

/// What `Radix2EvaluationDomain::ifft` of the given size returns on the given values.
pub uninterp spec fn ifft_of(size: nat, v: Seq<int>) -> Seq<int>;

/// What `Radix2EvaluationDomain::element` returns: the i-th power of the size's root of unity.
pub uninterp spec fn domain_element_of(size: nat, i: nat) -> int;

/// What `EvaluationDomain::evaluate_all_lagrange_coefficients` returns at tau.
pub uninterp spec fn lagrange_at(size: nat, tau: int) -> Seq<int>;

/// What field multiplication returns.
pub uninterp spec fn field_mul_of(a: int, b: int) -> int;

pub open spec fn values(v: Seq<Scalar>) -> Seq<int> {
    v.map_values(|s: Scalar| s.value())
}

pub open spec fn all_wf(v: Seq<Scalar>) -> bool {
    forall|i: int| 0 <= i < v.len() ==> #[trigger] v[i].wf()
}

/// Relies on `UniformRand::rand` for the scalar field, with the thread's generator, and on
/// `PrimeField::into_bigint`, which gives the canonical representative.
#[verifier::external_body]
pub fn random_scalar() -> (r: Scalar)
    ensures
        r.wf(),
{
    let f = ark_bls12_381::Fr::rand(&mut rand::thread_rng());
    Scalar { limbs: f.into_bigint().0 }
}

/// Relies on `Radix2EvaluationDomain::fft` over the scalar field: the evaluations, in the
/// order of the domain's elements, of the polynomial with coefficients `v`.
#[verifier::external_body]
pub(crate) fn scalar_fft(size: usize, v: &Vec<Scalar>) -> (r: Vec<Scalar>)
    requires
        domain_size_ok(size as nat),
        v.len() == size,
        all_wf(v@),
    ensures
        r.len() == size,
        all_wf(r@),
        values(r@) == fft_of(size as nat, values(v@)),
{
    let d = Radix2EvaluationDomain::<ark_bls12_381::Fr>::new(size).unwrap();
    let f: Vec<ark_bls12_381::Fr> = v.iter().map(|s| ark_bls12_381::Fr::from_bigint(BigInt::new(s.limbs)).unwrap()).collect();
    d.fft(&f).iter().map(|x| Scalar { limbs: x.into_bigint().0 }).collect()
}

/// Relies on `Radix2EvaluationDomain::ifft` over the scalar field: the coefficients of the
/// polynomial that takes the values `v` on the domain's elements, in order.
#[verifier::external_body]
pub(crate) fn scalar_ifft(size: usize, v: &Vec<Scalar>) -> (r: Vec<Scalar>)
    requires
        domain_size_ok(size as nat),
        v.len() == size,
        all_wf(v@),
    ensures
        r.len() == size,
        all_wf(r@),
        values(r@) == ifft_of(size as nat, values(v@)),
{
    let d = Radix2EvaluationDomain::<ark_bls12_381::Fr>::new(size).unwrap();
    let f: Vec<ark_bls12_381::Fr> = v.iter().map(|s| ark_bls12_381::Fr::from_bigint(BigInt::new(s.limbs)).unwrap()).collect();
    d.ifft(&f).iter().map(|x| Scalar { limbs: x.into_bigint().0 }).collect()
}

/// Relies on `EvaluationDomain::element`: the i-th element of the domain of the given size.
#[verifier::external_body]
pub(crate) fn domain_element(size: usize, i: usize) -> (r: Scalar)
    requires
        domain_size_ok(size as nat),
    ensures
        r.wf(),
        r.value() == domain_element_of(size as nat, i as nat),
{
    let d = Radix2EvaluationDomain::<ark_bls12_381::Fr>::new(size).unwrap();
    Scalar { limbs: d.element(i).into_bigint().0 }
}

/// Relies on `EvaluationDomain::evaluate_all_lagrange_coefficients`: the value at `tau` of each
/// Lagrange basis polynomial of the domain, in the order of the domain's elements.
#[verifier::external_body]
pub(crate) fn lagrange_coefficients(size: usize, tau: &Scalar) -> (r: Vec<Scalar>)
    requires
        domain_size_ok(size as nat),
        tau.wf(),
    ensures
        r.len() == size,
        all_wf(r@),
        values(r@) == lagrange_at(size as nat, tau.value()),
{
    let d = Radix2EvaluationDomain::<ark_bls12_381::Fr>::new(size).unwrap();
    let t = ark_bls12_381::Fr::from_bigint(BigInt::new(tau.limbs)).unwrap();
    d.evaluate_all_lagrange_coefficients(t).iter().map(|x| Scalar { limbs: x.into_bigint().0 }).collect()
}

/// Relies on multiplication in the scalar field.
#[verifier::external_body]
pub(crate) fn field_mul(a: &Scalar, b: &Scalar) -> (r: Scalar)
    requires
        a.wf(),
        b.wf(),
    ensures
        r.wf(),
        r.value() == field_mul_of(a.value(), b.value()),
{
    let x = ark_bls12_381::Fr::from_bigint(BigInt::new(a.limbs)).unwrap();
    let y = ark_bls12_381::Fr::from_bigint(BigInt::new(b.limbs)).unwrap();
    Scalar { limbs: (x * y).into_bigint().0 }
}

} // verus!
