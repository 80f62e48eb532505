//! The laconic OT exchange: a receiver committed to a bit string, and a sender that
//! encrypts a pair of messages against that commitment at one position.
use vstd::prelude::*;
use ark_ff::BigInteger;
use crate::curve::{
    all_g1, check_g1, check_g2, g1_mul, g1_mul_of, g1_sub, g1_sub_of, g2_mul, g2_mul_of, g2_sub,
    g2_sub_of, check_gt, gt_add, gt_add_of, gt_mul, gt_mul_of, gt_zero, gt_zero_of, is_g1, is_g2, is_gt,
    pairing, pairing_of, points, g1_msm_of,
};
use crate::encap::{decrypt, encrypt, keystream_of, lemma_decrypt_encrypt, xor_seq, MSG_SIZE};
use crate::kzg::{fk_openings, size_supported, CommitmentKey};
use crate::scalar::{
    all_wf, domain_element, domain_element_of, random_scalar, values, Scalar,
};

verus! {

/// Why a receiver or sender could not be built.
#[derive(Clone, Copy, Debug, PartialEq, Eq)]
pub enum OtError {
    /// More bits than the key's domain has points.
    Capacity,
    /// Bytes that do not encode what they should.
    Decode,
}

/// A protocol session: the commitment key that its receivers and senders share.
#[derive(Clone, Debug)]
pub struct LaconicOT {
    pub ck: CommitmentKey,
}

/// One round of the transfer at one position: for each hypothesis on the receiver's bit
/// (slot 0 for false, slot 1 for true), an encoded G2 element and a ciphertext.
#[derive(Clone, Debug)]
pub struct Msg {
    pub h: [(Vec<u8>, [u8; MSG_SIZE]); 2],
}

impl Msg {
    pub open spec fn wf(&self) -> bool {
        is_g2(self.h[0].0@) && is_g2(self.h[1].0@)
    }

    /// Whether both G2 elements decode.
    pub fn check(&self) -> (r: bool)
        ensures
            r == self.wf(),
    {
        check_g2(&self.h[0].0) && check_g2(&self.h[1].0)
    }
}

/// The receiver: its bits, the commitment to them padded to the domain size, and the
/// opening proof at every domain point.
#[derive(Clone, Debug)]
pub struct LaconicOTRecv {
    pub qs: Vec<Vec<u8>>,
    pub com: Vec<u8>,
    pub bits: Vec<bool>,
}

/// The values that a receiver with `bits` commits to over a domain of size n: 1 or 0 for each
/// bit, then padding that is never 0 or 1.
pub open spec fn padded_for(vals: Seq<Scalar>, bits: Seq<bool>, n: nat) -> bool {
    &&& vals.len() == n
    &&& all_wf(vals)
    &&& forall|i: int|
        0 <= i < bits.len() ==> (#[trigger] vals[i]).value() == (if bits[i] {
            1int
        } else {
            0int
        })
    &&& forall|i: int| bits.len() <= i < n ==> !(#[trigger] vals[i]).is_bit()
}

/// The slot that a receiver with bit b opens.
pub open spec fn slot(b: bool) -> int {
    if b {
        1
    } else {
        0
    }
}

impl LaconicOTRecv {
    pub open spec fn wf(&self) -> bool {
        &&& self.bits.len() <= self.qs.len()
        &&& all_g1(self.qs@)
        &&& is_g1(self.com@)
    }

    /// Commits to `bits` under the key: pads them with random non-bit values up to the
    /// domain size, commits, and computes every opening proof.
    pub fn new(ck: &CommitmentKey, bits: &[bool]) -> (r: Result<LaconicOTRecv, OtError>)
        requires
            ck.wf(),
        ensures
            r is Err <==> bits@.len() > ck.size,
            r is Err ==> r == Err::<LaconicOTRecv, OtError>(OtError::Capacity),
            r is Ok ==> ({
                let rv = r.unwrap();
                &&& rv.wf()
                &&& rv.bits@ == bits@
                &&& rv.qs.len() == ck.size
                &&& exists|vals: Seq<Scalar>|
                    #[trigger] padded_for(vals, bits@, ck.size as nat) && rv.com@ == g1_msm_of(
                        points(ck.u@),
                        values(vals),
                    ) && points(rv.qs@) == fk_openings(
                        points(ck.y@),
                        ck.size as nat,
                        values(vals),
                    )
            }),
    {
        let n = ck.size;
        if bits.len() > n {
            return Err(OtError::Capacity);
        }
        let mut elems: Vec<Scalar> = Vec::new();
        let mut i: usize = 0;
        while i < n
            invariant
                i <= n,
                bits.len() <= n,
                elems.len() == i,
                all_wf(elems@),
                forall|k: int|
                    0 <= k < i && k < bits.len() ==> (#[trigger] elems@[k]).value() == (if bits@[k] {
                        1int
                    } else {
                        0int
                    }),
                forall|k: int| bits.len() <= k < i ==> !(#[trigger] elems@[k]).is_bit(),
            decreases n - i,
        {
            if i < bits.len() {
                elems.push(Scalar::from_bool(bits[i]));
            } else {
                elems.push(padding_scalar());
            }
            i = i + 1;
        }
        assert(padded_for(elems@, bits@, n as nat));
        let com = ck.commit(&elems);
        let qs = ck.open_all(&elems);
        let mut kept: Vec<bool> = Vec::new();
        let mut j: usize = 0;
        while j < bits.len()
            invariant
                j <= bits.len(),
                kept@ == bits@.subrange(0, j as int),
            decreases bits.len() - j,
        {
            kept.push(bits[j]);
            j = j + 1;
        }
        assert(kept@ =~= bits@);
        Ok(LaconicOTRecv { qs, com, bits: kept })
    }

    /// Opens the slot of `msg` that matches the receiver's bit at position `i`.
    pub fn recv(&self, i: usize, msg: &Msg) -> (r: [u8; MSG_SIZE])
        requires
            self.wf(),
            i < self.bits.len(),
            msg.wf(),
        ensures
            r@ == xor_seq(
                keystream_of(pairing_of(self.qs@[i as int]@, msg.h[slot(self.bits@[i as int])].0@)),
                msg.h[slot(self.bits@[i as int])].1@,
            ),
    {
        let j: usize = if self.bits[i] {
            1
        } else {
            0
        };
        let pad = pairing(&self.qs[i], &msg.h[j].0);
        decrypt(&pad, &msg.h[j].1)
    }

    /// The commitment, safe to publish.
    pub fn commitment(&self) -> (r: Vec<u8>)
        ensures
            r@ == self.com@,
    {
        self.com.clone()
    }
}

/// A random scalar that is neither 0 nor 1: on the negligible chance that the draw is one of
/// them, 2 is taken instead.
fn padding_scalar() -> (r: Scalar)
    ensures
        r.wf(),
        !r.is_bit(),
{
    let s = random_scalar();
    if s.check_bit() {
        Scalar::from_u64(2)
    } else {
        s
    }
}

/// The sender: what it needs of the key, and the receiver's commitment.
#[derive(Clone, Debug)]
pub struct LaconicOTSender {
    pub size: usize,
    pub g1: Vec<u8>,
    pub g2: Vec<u8>,
    pub r: Vec<u8>,
    pub com: Vec<u8>,
}

/// Sum, in GT, of `table[i]` over the set bits i of `s` below k.
pub open spec fn squares_sum(table: Seq<Seq<u8>>, s: Scalar, k: nat) -> Seq<u8>
    decreases k,
{
    if k == 0 {
        gt_zero_of(())
    } else {
        let acc = squares_sum(table, s, (k - 1) as nat);
        if s.bit(k - 1) {
            gt_add_of(acc, table[k - 1])
        } else {
            acc
        }
    }
}

/// Sum, in GT, over the first k signed digits: `table[i].0` where the digit is 1,
/// `table[i].1` where it is -1.
pub open spec fn naf_sum(table: Seq<(Seq<u8>, Seq<u8>)>, digits: Seq<i64>, k: nat) -> Seq<u8>
    decreases k,
{
    if k == 0 {
        gt_zero_of(())
    } else {
        let acc = naf_sum(table, digits, (k - 1) as nat);
        if digits[k - 1] == 1 {
            gt_add_of(acc, table[k - 1].0)
        } else if digits[k - 1] == -1 {
            gt_add_of(acc, table[k - 1].1)
        } else {
            acc
        }
    }
}

/// The signed binary digits (width 2) of the integer that the limbs spell, least
/// significant first.
pub uninterp spec fn wnaf_of(limbs: Seq<u64>) -> Seq<i64>;

/// Relies on `BigInteger::find_wnaf` with width 2, which returns `Some` for that width.
#[verifier::external_body]
fn wnaf_digits(s: &Scalar) -> (r: Vec<i64>)
    ensures
        r@ == wnaf_of(s.limbs@),
{
    ark_ff::BigInt::new(s.limbs).find_wnaf(2).unwrap()
}

pub open spec fn bits_covered(s: Scalar, len: nat) -> bool {
    forall|i: int| 0 <= i < 256 && #[trigger] s.bit(i) ==> i < len
}

pub open spec fn all_gt(v: Seq<Vec<u8>>) -> bool {
    forall|i: int| 0 <= i < v.len() ==> #[trigger] is_gt(v[i]@)
}

pub open spec fn all_gt_pairs(v: Seq<(Vec<u8>, Vec<u8>)>) -> bool {
    forall|i: int| #![trigger v[i]] 0 <= i < v.len() ==> is_gt(v[i].0@) && is_gt(v[i].1@)
}

pub open spec fn pair_points(v: Seq<(Vec<u8>, Vec<u8>)>) -> Seq<(Seq<u8>, Seq<u8>)> {
    v.map_values(|p: (Vec<u8>, Vec<u8>)| (p.0@, p.1@))
}

/// Whether every entry decodes as a target-group element.
pub fn check_all_gt(v: &Vec<Vec<u8>>) -> (r: bool)
    ensures
        r == all_gt(v@),
{
    let mut k: usize = 0;
    while k < v.len()
        invariant
            k <= v.len(),
            forall|j: int| 0 <= j < k ==> #[trigger] is_gt(v@[j]@),
        decreases v.len() - k,
    {
        if !check_gt(&v[k]) {
            return false;
        }
        k = k + 1;
    }
    true
}

/// Whether both halves of every entry decode as target-group elements.
pub fn check_all_gt_pairs(v: &Vec<(Vec<u8>, Vec<u8>)>) -> (r: bool)
    ensures
        r == all_gt_pairs(v@),
{
    let mut k: usize = 0;
    while k < v.len()
        invariant
            k <= v.len(),
            forall|j: int| #![trigger v@[j]] 0 <= j < k ==> is_gt(v@[j].0@) && is_gt(v@[j].1@),
        decreases v.len() - k,
    {
        if !check_gt(&v[k].0) || !check_gt(&v[k].1) {
            return false;
        }
        k = k + 1;
    }
    true
}

impl LaconicOTSender {
    pub open spec fn wf(&self) -> bool {
        &&& size_supported(self.size as nat)
        &&& is_g1(self.g1@)
        &&& is_g1(self.com@)
        &&& is_g2(self.g2@)
        &&& is_g2(self.r@)
    }

    /// The sender for the commitment `com` under the key; the commitment must encode a G1
    /// element, and is otherwise taken on trust.
    pub fn new(ck: &CommitmentKey, com: &Vec<u8>) -> (r: Result<LaconicOTSender, OtError>)
        requires
            ck.wf(),
        ensures
            r is Ok <==> is_g1(com@),
            r is Err ==> r == Err::<LaconicOTSender, OtError>(OtError::Decode),
            r is Ok ==> ({
                let s = r.unwrap();
                &&& s.wf()
                &&& s.size == ck.size
                &&& s.g1@ == ck.g1@
                &&& s.g2@ == ck.g2@
                &&& s.r@ == ck.r@
                &&& s.com@ == com@
            }),
    {
        if !check_g1(com) {
            return Err(OtError::Decode);
        }
        Ok(
            LaconicOTSender {
                size: ck.size,
                g1: ck.g1.clone(),
                g2: ck.g2.clone(),
                r: ck.r.clone(),
                com: com.clone(),
            },
        )
    }

    /// The blinding element `r - g2 * x_i` in G2, for the i-th domain point x_i.
    pub open spec fn blind(&self, i: nat) -> Seq<u8> {
        g2_sub_of(self.r@, g2_mul_of(self.g2@, domain_element_of(self.size as nat, i)))
    }

    /// The pairing base for hypothesis bit 0: the commitment paired with g2.
    pub open spec fn base0(&self) -> Seq<u8> {
        pairing_of(self.com@, self.g2@)
    }

    /// The pairing base for hypothesis bit 1: the commitment less the commitment to the constant
    /// 1 (the G1 generator), paired with g2.
    pub open spec fn base1(&self) -> Seq<u8> {
        pairing_of(g1_sub_of(self.com@, self.g1@), self.g2@)
    }

    /// A message whose slots hold `blind(i) * r_j` and `m_j` encrypted under `msk_j`.
    pub open spec fn msg_for(
        &self,
        msg: Msg,
        i: nat,
        m0: Seq<u8>,
        m1: Seq<u8>,
        r0: Scalar,
        r1: Scalar,
        msk0: Seq<u8>,
        msk1: Seq<u8>,
    ) -> bool {
        &&& msg.wf()
        &&& msg.h[0].0@ == g2_mul_of(self.blind(i), r0.value())
        &&& msg.h[1].0@ == g2_mul_of(self.blind(i), r1.value())
        &&& msg.h[0].1@ == xor_seq(keystream_of(msk0), m0)
        &&& msg.h[1].1@ == xor_seq(keystream_of(msk1), m1)
    }

    /// The G2 parts and the encryption, shared by every way of computing the masks.
    fn seal(
        &self,
        i: usize,
        m0: &[u8; MSG_SIZE],
        m1: &[u8; MSG_SIZE],
        r0: &Scalar,
        r1: &Scalar,
        msk0: &Vec<u8>,
        msk1: &Vec<u8>,
    ) -> (r: Msg)
        requires
            self.wf(),
            i < self.size,
        ensures
            self.msg_for(r, i as nat, m0@, m1@, *r0, *r1, msk0@, msk1@),
    {
        let x = domain_element(self.size, i);
        let g2x = g2_mul(&self.g2, &x);
        let cm = g2_sub(&self.r, &g2x);
        let h0 = g2_mul(&cm, r0);
        let h1 = g2_mul(&cm, r1);
        let c0 = encrypt(msk0, m0);
        let c1 = encrypt(msk1, m1);
        Msg { h: [(h0, c0), (h1, c1)] }
    }

    /// Encrypts `m0` for a receiver whose bit at position i is false and `m1` for one whose bit
    /// is true, with the fresh random scalars r0 and r1.
    pub fn send(&self, i: usize, m0: [u8; MSG_SIZE], m1: [u8; MSG_SIZE], r0: &Scalar, r1: &Scalar) -> (r: Msg)
        requires
            self.wf(),
            i < self.size,
        ensures
            self.msg_for(
                r,
                i as nat,
                m0@,
                m1@,
                *r0,
                *r1,
                pairing_of(g1_mul_of(self.com@, r0.value()), self.g2@),
                pairing_of(g1_mul_of(g1_sub_of(self.com@, self.g1@), r1.value()), self.g2@),
            ),
    {
        let l0 = g1_mul(&self.com, r0);
        let diff = g1_sub(&self.com, &self.g1);
        let l1 = g1_mul(&diff, r1);
        let msk0 = pairing(&l0, &self.g2);
        let msk1 = pairing(&l1, &self.g2);
        self.seal(i, &m0, &m1, r0, r1, &msk0, &msk1)
    }

    /// The two pairing bases that the precomputing variants of `send` start from.
    pub fn pairing_bases(&self) -> (r: (Vec<u8>, Vec<u8>))
        requires
            self.wf(),
        ensures
            r.0@ == self.base0(),
            r.1@ == self.base1(),
            is_gt(r.0@),
            is_gt(r.1@),
    {
        let com0 = pairing(&self.com, &self.g2);
        let diff = g1_sub(&self.com, &self.g1);
        let com1 = pairing(&diff, &self.g2);
        (com0, com1)
    }

    /// `send`, with the masks computed as `com0 * r0` and `com1 * r1` from precomputed
    /// pairing bases. `None` where a base does not decode as a target-group element.
    pub fn send_precompute_pairings(
        &self,
        i: usize,
        m0: [u8; MSG_SIZE],
        m1: [u8; MSG_SIZE],
        com0: &Vec<u8>,
        com1: &Vec<u8>,
        r0: &Scalar,
        r1: &Scalar,
    ) -> (r: Option<Msg>)
        requires
            self.wf(),
            i < self.size,
        ensures
            r is Some <==> is_gt(com0@) && is_gt(com1@),
            r is Some ==> self.msg_for(
                r.unwrap(),
                i as nat,
                m0@,
                m1@,
                *r0,
                *r1,
                gt_mul_of(com0@, r0.value()),
                gt_mul_of(com1@, r1.value()),
            ),
    {
        if !check_gt(com0) || !check_gt(com1) {
            return None;
        }
        let msk0 = gt_mul(com0, r0);
        let msk1 = gt_mul(com1, r1);
        Some(self.seal(i, &m0, &m1, r0, r1, &msk0, &msk1))
    }

    /// `send`, with the masks computed from tables of doublings of the pairing bases: entry k
    /// of each table is the base times 2^k. `None` where a table entry does not decode as a
    /// target-group element.
    pub fn send_precompute_squares(
        &self,
        i: usize,
        m0: [u8; MSG_SIZE],
        m1: [u8; MSG_SIZE],
        com0_squares: &Vec<Vec<u8>>,
        com1_squares: &Vec<Vec<u8>>,
        r0: &Scalar,
        r1: &Scalar,
    ) -> (r: Option<Msg>)
        requires
            self.wf(),
            i < self.size,
            bits_covered(*r0, com0_squares.len() as nat),
            bits_covered(*r1, com1_squares.len() as nat),
        ensures
            r is Some <==> all_gt(com0_squares@) && all_gt(com1_squares@),
            r is Some ==> self.msg_for(
                r.unwrap(),
                i as nat,
                m0@,
                m1@,
                *r0,
                *r1,
                squares_sum(points(com0_squares@), *r0, 256),
                squares_sum(points(com1_squares@), *r1, 256),
            ),
    {
        if !check_all_gt(com0_squares) || !check_all_gt(com1_squares) {
            return None;
        }
        let msk0 = Self::scalar_mul_with_precomputed_squares(com0_squares, r0);
        let msk1 = Self::scalar_mul_with_precomputed_squares(com1_squares, r1);
        Some(self.seal(i, &m0, &m1, r0, r1, &msk0, &msk1))
    }

    /// `send`, with the masks computed from the signed binary digits of r0 and r1 and tables
    /// of (base * 2^k, -base * 2^k). `None` where a table is shorter than the digits or an
    /// entry does not decode as a target-group element.
    pub fn send_precompute_naf(
        &self,
        i: usize,
        m0: [u8; MSG_SIZE],
        m1: [u8; MSG_SIZE],
        com0_precomp: &Vec<(Vec<u8>, Vec<u8>)>,
        com1_precomp: &Vec<(Vec<u8>, Vec<u8>)>,
        r0: &Scalar,
        r1: &Scalar,
    ) -> (r: Option<Msg>)
        requires
            self.wf(),
            i < self.size,
        ensures
            r is Some <==> (wnaf_of(r0.limbs@).len() <= com0_precomp.len() && wnaf_of(
                r1.limbs@,
            ).len() <= com1_precomp.len() && all_gt_pairs(com0_precomp@) && all_gt_pairs(
                com1_precomp@,
            )),
            r is Some ==> self.msg_for(
                r.unwrap(),
                i as nat,
                m0@,
                m1@,
                *r0,
                *r1,
                naf_sum(pair_points(com0_precomp@), wnaf_of(r0.limbs@), wnaf_of(r0.limbs@).len()),
                naf_sum(pair_points(com1_precomp@), wnaf_of(r1.limbs@), wnaf_of(r1.limbs@).len()),
            ),
    {
        let d0 = wnaf_digits(r0);
        let d1 = wnaf_digits(r1);
        if d0.len() > com0_precomp.len() || d1.len() > com1_precomp.len() {
            return None;
        }
        if !check_all_gt_pairs(com0_precomp) || !check_all_gt_pairs(com1_precomp) {
            return None;
        }
        let msk0 = Self::scalar_mul_with_precomputed_naf(com0_precomp, &d0);
        let msk1 = Self::scalar_mul_with_precomputed_naf(com1_precomp, &d1);
        Some(self.seal(i, &m0, &m1, r0, r1, &msk0, &msk1))
    }

    /// The sum of `precomp[k]` over the set bits k of the scalar.
    pub fn scalar_mul_with_precomputed_squares(precomp: &Vec<Vec<u8>>, scalar: &Scalar) -> (r: Vec<u8>)
        requires
            all_gt(precomp@),
            bits_covered(*scalar, precomp.len() as nat),
        ensures
            is_gt(r@),
            r@ == squares_sum(points(precomp@), *scalar, 256),
    {
        let mut result = gt_zero();
        let mut k: usize = 0;
        while k < 256
            invariant
                k <= 256,
                all_gt(precomp@),
                bits_covered(*scalar, precomp.len() as nat),
                is_gt(result@),
                result@ == squares_sum(points(precomp@), *scalar, k as nat),
            decreases 256 - k,
        {
            if (scalar.limbs[k / 64] >> ((k % 64) as u64)) & 1 == 1 {
                assert(scalar.bit(k as int));
                result = gt_add(&result, &precomp[k]);
            }
            k = k + 1;
        }
        result
    }

    /// The sum over the digits: `precomp[k].0` where digit k is 1, `precomp[k].1` where it is -1.
    pub fn scalar_mul_with_precomputed_naf(precomp: &Vec<(Vec<u8>, Vec<u8>)>, digits: &Vec<i64>) -> (r: Vec<u8>)
        requires
            all_gt_pairs(precomp@),
            digits.len() <= precomp.len(),
        ensures
            is_gt(r@),
            r@ == naf_sum(pair_points(precomp@), digits@, digits.len() as nat),
    {
        let mut result = gt_zero();
        let mut k: usize = 0;
        while k < digits.len()
            invariant
                k <= digits.len(),
                digits.len() <= precomp.len(),
                all_gt_pairs(precomp@),
                is_gt(result@),
                result@ == naf_sum(pair_points(precomp@), digits@, k as nat),
            decreases digits.len() - k,
        {
            if digits[k] == 1 {
                result = gt_add(&result, &precomp[k].0);
            } else if digits[k] == -1 {
                result = gt_add(&result, &precomp[k].1);
            }
            k = k + 1;
        }
        result
    }
}

/// Where the pad that the receiver derives for the slot of its bit b equals the mask that the
/// sender used for that slot, what `recv` returns on a message that `send` (in any of its
/// variants) produced is the message of that slot. That the two agree when the opening is
/// honest is the KZG pairing identity, a property of the curve that is not stated here.
pub proof fn lemma_recv_of_send(
    s: LaconicOTSender,
    msg: Msg,
    i: nat,
    m0: Seq<u8>,
    m1: Seq<u8>,
    r0: Scalar,
    r1: Scalar,
    msk0: Seq<u8>,
    msk1: Seq<u8>,
    q: Seq<u8>,
    b: bool,
)
    requires
        s.msg_for(msg, i, m0, m1, r0, r1, msk0, msk1),
        pairing_of(q, msg.h[slot(b)].0@) == (if b {
            msk1
        } else {
            msk0
        }),
    ensures
        xor_seq(keystream_of(pairing_of(q, msg.h[slot(b)].0@)), msg.h[slot(b)].1@) == (if b {
            m1
        } else {
            m0
        }),
{
    if b {
        lemma_decrypt_encrypt(msk1, m1);
    } else {
        lemma_decrypt_encrypt(msk0, m0);
    }
}

} // verus!
