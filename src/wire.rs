//! The receiver's byte encoding: the number of openings and of bits (eight little-endian
//! bytes each), the commitment, the openings, then one byte (0 or 1) per bit. Points are
//! uncompressed G1 encodings of `G1_LEN` bytes.
use vstd::prelude::*;
use crate::curve::{all_g1, check_g1, is_g1, points, G1_LEN};
use crate::kzg::{size_supported, CommitmentKey};
use crate::ot::{LaconicOTRecv, OtError};

verus! {

/// Bytes before the commitment.
pub const HEADER_LEN: usize = 16;

/// Offset of the first opening.
pub const BODY_START: usize = 112;

pub open spec fn bit_byte(b: bool) -> u8 {
    if b {
        1
    } else {
        0
    }
}

/// The eight little-endian bytes of n.
pub open spec fn le_bytes(n: u64) -> Seq<u8> {
    seq![
        (n & 0xff) as u8,
        ((n >> 8u64) & 0xff) as u8,
        ((n >> 16u64) & 0xff) as u8,
        ((n >> 24u64) & 0xff) as u8,
        ((n >> 32u64) & 0xff) as u8,
        ((n >> 40u64) & 0xff) as u8,
        ((n >> 48u64) & 0xff) as u8,
        ((n >> 56u64) & 0xff) as u8,
    ]
}

pub open spec fn le_of(b0: u8, b1: u8, b2: u8, b3: u8, b4: u8, b5: u8, b6: u8, b7: u8) -> u64 {
    (b0 as u64) | ((b1 as u64) << 8u64) | ((b2 as u64) << 16u64) | ((b3 as u64) << 24u64) | ((
    b4 as u64) << 32u64) | ((b5 as u64) << 40u64) | ((b6 as u64) << 48u64) | ((b7 as u64) << 56u64)
}

/// The number whose little-endian bytes start at `off`.
pub open spec fn le_value(s: Seq<u8>, off: int) -> u64 {
    le_of(s[off], s[off + 1], s[off + 2], s[off + 3], s[off + 4], s[off + 5], s[off + 6], s[off + 7])
}

/// The encoding of a receiver with openings `qs`, commitment `com` and `bits`.
pub open spec fn encode_recv(qs: Seq<Seq<u8>>, com: Seq<u8>, bits: Seq<bool>) -> Seq<u8> {
    let nq = qs.len() as int;
    let nb = bits.len() as int;
    Seq::new(
        (BODY_START + G1_LEN * nq + nb) as nat,
        |k: int|
            if k < 8 {
                le_bytes(nq as u64)[k]
            } else if k < HEADER_LEN {
                le_bytes(nb as u64)[k - 8]
            } else if k < BODY_START {
                com[k - HEADER_LEN]
            } else if k < BODY_START + G1_LEN * nq {
                qs[(k - BODY_START) / G1_LEN as int][(k - BODY_START) % G1_LEN as int]
            } else {
                bit_byte(bits[k - BODY_START - G1_LEN * nq])
            },
    )
}

pub open spec fn decoded_com(d: Seq<u8>) -> Seq<u8> {
    d.subrange(HEADER_LEN as int, BODY_START as int)
}

pub open spec fn decoded_q(d: Seq<u8>, i: int) -> Seq<u8> {
    d.subrange(BODY_START + G1_LEN * i, BODY_START + G1_LEN * (i + 1))
}

pub open spec fn decoded_qs(d: Seq<u8>, n: nat) -> Seq<Seq<u8>> {
    Seq::new(n, |i: int| decoded_q(d, i))
}

pub open spec fn decoded_bits(d: Seq<u8>, n: nat, nb: nat) -> Seq<bool> {
    Seq::new(nb, |k: int| d[BODY_START + G1_LEN * n + k] == 1)
}

/// The bytes are the encoding of a receiver with n openings: the counts agree with the
/// length, every point decodes, and every bit byte is 0 or 1.
pub open spec fn decodable(d: Seq<u8>, n: nat) -> bool {
    &&& d.len() >= HEADER_LEN
    &&& le_value(d, 0) == n
    &&& le_value(d, 8) <= n
    &&& d.len() == BODY_START + G1_LEN * n + le_value(d, 8)
    &&& is_g1(decoded_com(d))
    &&& forall|i: int| 0 <= i < n ==> #[trigger] is_g1(decoded_q(d, i))
    &&& forall|k: int|
        0 <= k < le_value(d, 8) ==> #[trigger] d[BODY_START + G1_LEN * n + k] <= 1
}

proof fn lemma_le_round_trip(n: u64)
    ensures
        le_value(le_bytes(n), 0) == n,
{
    let s = le_bytes(n);
    assert(le_of(
        (n & 0xff) as u8,
        ((n >> 8u64) & 0xff) as u8,
        ((n >> 16u64) & 0xff) as u8,
        ((n >> 24u64) & 0xff) as u8,
        ((n >> 32u64) & 0xff) as u8,
        ((n >> 40u64) & 0xff) as u8,
        ((n >> 48u64) & 0xff) as u8,
        ((n >> 56u64) & 0xff) as u8,
    ) == n) by (bit_vector);
}

proof fn lemma_div_mod_g1(i: int, j: int)
    requires
        i >= 0,
        0 <= j < G1_LEN,
    ensures
        (G1_LEN * i + j) / G1_LEN as int == i,
        (G1_LEN * i + j) % G1_LEN as int == j,
{
    vstd::arithmetic::div_mod::lemma_fundamental_div_mod_converse(
        G1_LEN * i + j,
        G1_LEN as int,
        i,
        j,
    );
}

/// Decoding an encoding gives back the openings, the commitment and the bits it was made from.
pub proof fn lemma_encode_decode(qs: Seq<Seq<u8>>, com: Seq<u8>, bits: Seq<bool>)
    requires
        forall|i: int| 0 <= i < qs.len() ==> #[trigger] is_g1(qs[i]),
        is_g1(com),
        bits.len() <= qs.len(),
        qs.len() <= u64::MAX,
    ensures
        decodable(encode_recv(qs, com, bits), qs.len()),
        decoded_qs(encode_recv(qs, com, bits), qs.len()) == qs,
        decoded_com(encode_recv(qs, com, bits)) == com,
        decoded_bits(encode_recv(qs, com, bits), qs.len(), bits.len()) == bits,
{
    let d = encode_recv(qs, com, bits);
    let n = qs.len();
    lemma_le_round_trip(n as u64);
    lemma_le_round_trip(bits.len() as u64);
    assert(le_value(d, 0) == le_value(le_bytes(n as u64), 0));
    assert(le_value(d, 8) == le_value(le_bytes(bits.len() as u64), 0));
    assert(decoded_com(d) =~= com);
    assert forall|i: int| 0 <= i < n implies #[trigger] decoded_q(d, i) == qs[i] by {
        assert(is_g1(qs[i]));
        assert(G1_LEN * (i + 1) <= G1_LEN * n) by (nonlinear_arith)
            requires
                0 <= i < n,
        ;
        assert forall|j: int| 0 <= j < G1_LEN implies #[trigger] decoded_q(d, i)[j] == qs[i][j] by {
            lemma_div_mod_g1(i, j);
            assert(BODY_START + G1_LEN * (i + 1) == BODY_START + G1_LEN * i + G1_LEN) by (nonlinear_arith);
            assert(G1_LEN * i + j < G1_LEN * n) by (nonlinear_arith)
                requires
                    0 <= i < n,
                    0 <= j < G1_LEN,
            ;
            assert(decoded_q(d, i)[j] == d[BODY_START + G1_LEN * i + j]);
        }
        assert(BODY_START + G1_LEN * (i + 1) == BODY_START + G1_LEN * i + G1_LEN) by (nonlinear_arith);
        assert(decoded_q(d, i) =~= qs[i]);
    }
    assert(decoded_qs(d, n) =~= qs);
    assert(decoded_bits(d, n, bits.len()) =~= bits);
}

/// What `serialize` writes for a well-formed receiver with one opening per point of the key's
/// domain, `deserialize` reads back under that key: the same openings, commitment and bits.
pub proof fn lemma_receiver_round_trip(rv: LaconicOTRecv, ck: CommitmentKey)
    requires
        rv.wf(),
        ck.wf(),
        rv.qs.len() == ck.size,
    ensures
        ({
            let d = encode_recv(points(rv.qs@), rv.com@, rv.bits@);
            &&& decodable(d, ck.size as nat)
            &&& le_value(d, 8) == rv.bits.len()
            &&& decoded_qs(d, ck.size as nat) == points(rv.qs@)
            &&& decoded_com(d) == rv.com@
            &&& decoded_bits(d, ck.size as nat, le_value(d, 8) as nat) == rv.bits@
        }),
{
    let qs = points(rv.qs@);
    assert forall|i: int| 0 <= i < qs.len() implies #[trigger] is_g1(qs[i]) by {
        assert(is_g1(rv.qs@[i]@));
    }
    lemma_encode_decode(qs, rv.com@, rv.bits@);
    let d = encode_recv(qs, rv.com@, rv.bits@);
    lemma_le_round_trip(rv.bits.len() as u64);
    assert(le_value(d, 8) == le_value(le_bytes(rv.bits.len() as u64), 0));
}

/// Appends the eight little-endian bytes of n.
fn push_le(out: &mut Vec<u8>, n: u64)
    ensures
        final(out)@ == old(out)@ + le_bytes(n),
{
    out.push((n & 0xff) as u8);
    out.push(((n >> 8) & 0xff) as u8);
    out.push(((n >> 16) & 0xff) as u8);
    out.push(((n >> 24) & 0xff) as u8);
    out.push(((n >> 32) & 0xff) as u8);
    out.push(((n >> 40) & 0xff) as u8);
    out.push(((n >> 48) & 0xff) as u8);
    out.push(((n >> 56) & 0xff) as u8);
    assert(final(out)@ =~= old(out)@ + le_bytes(n));
}

/// The number whose little-endian bytes start at `off`.
fn read_le(d: &[u8], off: usize) -> (r: u64)
    requires
        off + 8 <= d@.len(),
    ensures
        r == le_value(d@, off as int),
{
    (d[off] as u64) | ((d[off + 1] as u64) << 8) | ((d[off + 2] as u64) << 16) | ((d[off + 3] as u64)
        << 24) | ((d[off + 4] as u64) << 32) | ((d[off + 5] as u64) << 40) | ((d[off + 6] as u64)
        << 48) | ((d[off + 7] as u64) << 56)
}

/// The bytes `d[start..start + len]`.
fn copy_range(d: &[u8], start: usize, len: usize) -> (r: Vec<u8>)
    requires
        start + len <= d@.len(),
    ensures
        r@ == d@.subrange(start as int, start + len),
{
    let dl = d.len();
    let mut out: Vec<u8> = Vec::new();
    let mut k: usize = 0;
    while k < len
        invariant
            k <= len,
            dl == d@.len(),
            start + len <= d@.len(),
            out@ == d@.subrange(start as int, start + k),
        decreases len - k,
    {
        out.push(d[start + k]);
        k = k + 1;
        assert(out@ =~= d@.subrange(start as int, start + k));
    }
    out
}

proof fn lemma_push_prefix(e: Seq<u8>, out: Seq<u8>, x: u8)
    requires
        out == e.subrange(0, out.len() as int),
        out.len() < e.len(),
        x == e[out.len() as int],
    ensures
        out.push(x) == e.subrange(0, out.len() + 1 as int),
{
    assert(out.push(x) =~= e.subrange(0, out.len() + 1 as int));
}

impl LaconicOTRecv {
    /// The receiver's state as bytes, to be read back by `deserialize`.
    pub fn serialize(&self) -> (r: Vec<u8>)
        requires
            self.wf(),
            BODY_START + (G1_LEN + 1) * self.qs.len() <= usize::MAX,
        ensures
            r@ == encode_recv(points(self.qs@), self.com@, self.bits@),
    {
        let ghost e = encode_recv(points(self.qs@), self.com@, self.bits@);
        let nq = self.qs.len();
        let nb = self.bits.len();
        assert(BODY_START + G1_LEN * nq + nb <= BODY_START + (G1_LEN + 1) * nq) by (nonlinear_arith)
            requires
                nb <= nq,
        ;
        let mut out: Vec<u8> = Vec::new();
        push_le(&mut out, nq as u64);
        push_le(&mut out, nb as u64);
        assert(out@ =~= e.subrange(0, 16));
        let mut k: usize = 0;
        while k < G1_LEN
            invariant
                k <= G1_LEN,
                self.wf(),
                e == encode_recv(points(self.qs@), self.com@, self.bits@),
                BODY_START + G1_LEN * nq + nb <= usize::MAX,
                nq == self.qs.len(),
                nb == self.bits.len(),
                out@.len() == HEADER_LEN + k,
                out@ == e.subrange(0, out@.len() as int),
            decreases G1_LEN - k,
        {
            proof {
                lemma_push_prefix(e, out@, self.com@[k as int]);
            }
            out.push(self.com[k]);
            k = k + 1;
        }
        let mut i: usize = 0;
        while i < nq
            invariant
                i <= nq,
                self.wf(),
                e == encode_recv(points(self.qs@), self.com@, self.bits@),
                BODY_START + G1_LEN * nq + nb <= usize::MAX,
                nq == self.qs.len(),
                nb == self.bits.len(),
                out@.len() == BODY_START + G1_LEN * i,
                out@ == e.subrange(0, out@.len() as int),
            decreases nq - i,
        {
            let q = &self.qs[i];
            assert(is_g1(self.qs@[i as int]@));
            assert(G1_LEN * i + G1_LEN <= G1_LEN * nq) by (nonlinear_arith)
                requires
                    i < nq,
            ;
            let mut j: usize = 0;
            while j < G1_LEN
                invariant
                    j <= G1_LEN,
                    i < nq,
                    q@.len() == G1_LEN,
                    q@ == points(self.qs@)[i as int],
                    e == encode_recv(points(self.qs@), self.com@, self.bits@),
                    G1_LEN * i + G1_LEN <= G1_LEN * nq,
                    BODY_START + G1_LEN * nq + nb <= usize::MAX,
                    nq == self.qs.len(),
                    out@.len() == BODY_START + G1_LEN * i + j,
                    out@ == e.subrange(0, out@.len() as int),
                decreases G1_LEN - j,
            {
                proof {
                    lemma_div_mod_g1(i as int, j as int);
                    lemma_push_prefix(e, out@, q@[j as int]);
                }
                out.push(q[j]);
                j = j + 1;
            }
            i = i + 1;
        }
        let mut k: usize = 0;
        while k < nb
            invariant
                k <= nb,
                e == encode_recv(points(self.qs@), self.com@, self.bits@),
                BODY_START + G1_LEN * nq + nb <= usize::MAX,
                nq == self.qs.len(),
                nb == self.bits.len(),
                out@.len() == BODY_START + G1_LEN * nq + k,
                out@ == e.subrange(0, out@.len() as int),
            decreases nb - k,
        {
            let b: u8 = if self.bits[k] {
                1
            } else {
                0
            };
            proof {
                lemma_push_prefix(e, out@, b);
            }
            out.push(b);
            k = k + 1;
        }
        assert(out@ =~= e);
        out
    }

    /// Reads back what `serialize` wrote, for a key whose domain has as many points as there are
    /// openings. Fails with `Decode` where the counts or the length disagree, a point does not
    /// decode, or a bit byte is neither 0 nor 1.
    pub fn deserialize(data: &[u8], ck: &CommitmentKey) -> (r: Result<LaconicOTRecv, OtError>)
        requires
            ck.wf(),
        ensures
            r is Ok <==> decodable(data@, ck.size as nat),
            r is Err ==> r == Err::<LaconicOTRecv, OtError>(OtError::Decode),
            r is Ok ==> ({
                let rv = r.unwrap();
                &&& rv.wf()
                &&& rv.qs.len() == ck.size
                &&& points(rv.qs@) == decoded_qs(data@, ck.size as nat)
                &&& rv.com@ == decoded_com(data@)
                &&& rv.bits@ == decoded_bits(data@, ck.size as nat, le_value(data@, 8) as nat)
            }),
    {
        let n = ck.size;
        if data.len() < HEADER_LEN {
            return Err(OtError::Decode);
        }
        let nq = read_le(data, 0);
        let nb = read_le(data, 8);
        if nq != n as u64 || nb > nq {
            return Err(OtError::Decode);
        }
        assert(size_supported(n as nat));
        let total: u64 = BODY_START as u64 + G1_LEN as u64 * nq + nb;
        if data.len() as u64 != total {
            return Err(OtError::Decode);
        }
        let com = copy_range(data, HEADER_LEN, G1_LEN);
        if !check_g1(&com) {
            return Err(OtError::Decode);
        }
        let mut qs: Vec<Vec<u8>> = Vec::new();
        let mut i: usize = 0;
        while i < n
            invariant
                i <= n,
                n == ck.size,
                size_supported(n as nat),
                data@.len() == BODY_START + G1_LEN * n + nb,
                data@.len() <= usize::MAX,
                qs.len() == i,
                forall|k: int| 0 <= k < i ==> #[trigger] qs@[k]@ == decoded_q(data@, k),
                forall|k: int| 0 <= k < i ==> is_g1(#[trigger] decoded_q(data@, k)),
            decreases n - i,
        {
            assert(BODY_START + G1_LEN * i + G1_LEN <= BODY_START + G1_LEN * n) by (nonlinear_arith)
                requires
                    i < n,
            ;
            let q = copy_range(data, BODY_START + G1_LEN * i, G1_LEN);
            assert(BODY_START + G1_LEN * (i + 1) == BODY_START + G1_LEN * i + G1_LEN) by (nonlinear_arith);
            if !check_g1(&q) {
                assert(!is_g1(decoded_q(data@, i as int)));
                return Err(OtError::Decode);
            }
            qs.push(q);
            i = i + 1;
        }
        let start = BODY_START + G1_LEN * n;
        let mut bits: Vec<bool> = Vec::new();
        let mut k: usize = 0;
        while k < nb as usize
            invariant
                k <= nb,
                nb <= n,
                start == BODY_START + G1_LEN * n,
                data@.len() == start + nb,
                data@.len() <= usize::MAX,
                nb == le_value(data@, 8),
                n == ck.size,
                bits@.len() == k,
                forall|j: int| 0 <= j < k ==> #[trigger] data@[start + j] <= 1,
                forall|j: int| 0 <= j < k ==> #[trigger] bits@[j] == (data@[start + j] == 1),
            decreases nb - k,
        {
            let b = data[start + k];
            if b > 1 {
                assert(data@[BODY_START + G1_LEN * n + k] > 1);
                return Err(OtError::Decode);
            }
            bits.push(b == 1);
            k = k + 1;
        }
        assert(points(qs@) =~= decoded_qs(data@, n as nat));
        assert(bits@ =~= decoded_bits(data@, n as nat, nb as nat));
        assert(all_g1(qs@));
        Ok(LaconicOTRecv { qs, com, bits })
    }
}

} // verus!
