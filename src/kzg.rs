//! KZG commitments in the Lagrange basis of a radix-2 domain, and the batch opener that
//! produces the opening proofs for every domain point at once by a Toeplitz product
//! computed with FFTs.
use vstd::prelude::*;
use crate::curve::{
    all_g1, g1_fft, g1_fft_of, g1_generator, g1_generator_of, g1_ifft, g1_ifft_of, g1_msm,
    g1_msm_of, g1_mul, g1_mul_of, g2_generator, g2_generator_of, g2_mul, g2_mul_of, is_g1, is_g2,
    points,
};
use crate::scalar::{
    all_wf, fft_of, field_mul, field_mul_of, ifft_of, is_pow2, lagrange_at, lagrange_coefficients,
    scalar_fft, scalar_ifft, values, Scalar, MAX_DOMAIN,
};

verus! {

/// Why a commitment key could not be built.
#[derive(Clone, Copy, Debug, PartialEq, Eq)]
pub enum SetupError {
    /// The size is not a power of two, or the field has no domain of twice that size.
    UnsupportedSize,
}

/// The structured reference string: commitments to the Lagrange basis, the table that the
/// batch opener consumes, the two generators and the trapdoor commitment in G2.
#[derive(Clone, Debug)]
pub struct CommitmentKey {
    /// Size N of the evaluation domain.
    pub size: usize,
    /// `u[i]`: the G1 commitment to the i-th Lagrange basis polynomial.
    pub u: Vec<Vec<u8>>,
    /// The batch opener's table: the FFT over the domain of size 2N of the powers of the
    /// trapdoor in G1, laid out for the Toeplitz product.
    pub y: Vec<Vec<u8>>,
    /// The G1 generator: the commitment to the constant polynomial 1, the sum of all `u[i]`.
    pub g1: Vec<u8>,
    /// The G2 generator.
    pub g2: Vec<u8>,
    /// The trapdoor times the G2 generator.
    pub r: Vec<u8>,
}

/// Sizes for which a key can be built: a power of two whose double is a domain of the field
/// and fits in a `usize`.
pub open spec fn size_supported(n: nat) -> bool {
    is_pow2(n) && 2 * n <= MAX_DOMAIN && 2 * n <= usize::MAX
}

/// tau to the power j, by repeated field multiplication.
pub open spec fn tau_pow(tau: int, j: nat) -> int
    decreases j,
{
    if j == 0 {
        1
    } else {
        field_mul_of(tau_pow(tau, (j - 1) as nat), tau)
    }
}

/// The vector whose FFT gives the opener's table: tau^(N-2-k) at k <= N-2, then zeros, 2N in all.
pub open spec fn tau_vector(n: nat, tau: int) -> Seq<int> {
    Seq::new(2 * n, |k: int| if k + 2 <= n { tau_pow(tau, (n - 2 - k) as nat) } else { 0 })
}

/// The first column of the 2N circulant matrix in which the Toeplitz matrix of the
/// coefficients `f` (of a polynomial of degree below N) is embedded.
pub open spec fn circulant_column(f: Seq<int>, n: nat) -> Seq<int> {
    Seq::new(
        2 * n,
        |k: int|
            if k == 0 {
                f[n - 1]
            } else if k <= n {
                0
            } else {
                f[k - n - 1]
            },
    )
}

/// The opening proofs at every domain point of the values `vals`, given the opener's table `y`.
pub open spec fn fk_openings(y: Seq<Seq<u8>>, n: nat, vals: Seq<int>) -> Seq<Seq<u8>> {
    let chat = fft_of(2 * n, circulant_column(ifft_of(n, vals), n));
    let w = Seq::new(2 * n, |k: int| g1_mul_of(y[k], chat[k]));
    g1_fft_of(n, g1_ifft_of(2 * n, w).subrange(0, n as int))
}

impl CommitmentKey {
    pub open spec fn wf(&self) -> bool {
        &&& size_supported(self.size as nat)
        &&& self.u.len() == self.size
        &&& self.y.len() == 2 * self.size
        &&& all_g1(self.u@)
        &&& all_g1(self.y@)
        &&& is_g1(self.g1@)
        &&& is_g2(self.g2@)
        &&& is_g2(self.r@)
    }

    /// Builds the key of domain size `n` from the trapdoor `tau`, which the caller must draw
    /// at random and discard afterwards.
    pub fn setup(tau: &Scalar, n: usize) -> (r: Result<CommitmentKey, SetupError>)
        requires
            tau.wf(),
        ensures
            r is Ok <==> size_supported(n as nat),
            r is Ok ==> ({
                let ck = r.unwrap();
                &&& ck.wf()
                &&& ck.size == n
                &&& forall|i: int|
                    0 <= i < n ==> #[trigger] ck.u@[i]@ == g1_mul_of(
                        g1_generator_of(()),
                        lagrange_at(n as nat, tau.value())[i],
                    )
                &&& forall|k: int|
                    0 <= k < 2 * n ==> #[trigger] ck.y@[k]@ == g1_mul_of(
                        g1_generator_of(()),
                        fft_of(2 * n as nat, tau_vector(n as nat, tau.value()))[k],
                    )
                &&& ck.g1@ == g1_generator_of(())
                &&& ck.g2@ == g2_generator_of(())
                &&& ck.r@ == g2_mul_of(g2_generator_of(()), tau.value())
            }),
    {
        if !check_size(n) {
            return Err(SetupError::UnsupportedSize);
        }
        let n2 = 2 * n;
        let g1 = g1_generator();

        let lag = lagrange_coefficients(n, tau);
        let mut u: Vec<Vec<u8>> = Vec::new();
        let mut i: usize = 0;
        while i < n
            invariant
                i <= n,
                lag.len() == n,
                is_g1(g1@),
                g1@ == g1_generator_of(()),
                u.len() == i,
                forall|j: int| 0 <= j < i ==> is_g1(#[trigger] u@[j]@),
                forall|j: int|
                    0 <= j < i ==> #[trigger] u@[j]@ == g1_mul_of(g1@, values(lag@)[j]),
            decreases n - i,
        {
            u.push(g1_mul(&g1, &lag[i]));
            i = i + 1;
        }

        let v = tau_powers_vector(tau, n);
        let yv = scalar_fft(n2, &v);
        let mut y: Vec<Vec<u8>> = Vec::new();
        let mut k: usize = 0;
        while k < n2
            invariant
                k <= n2,
                n2 == 2 * n,
                yv.len() == n2,
                is_g1(g1@),
                g1@ == g1_generator_of(()),
                y.len() == k,
                forall|j: int| 0 <= j < k ==> is_g1(#[trigger] y@[j]@),
                forall|j: int| 0 <= j < k ==> #[trigger] y@[j]@ == g1_mul_of(g1@, values(yv@)[j]),
            decreases n2 - k,
        {
            y.push(g1_mul(&g1, &yv[k]));
            k = k + 1;
        }

        let g2 = g2_generator();
        let r = g2_mul(&g2, tau);
        Ok(CommitmentKey { size: n, u, y, g1, g2, r })
    }

    /// The KZG commitment to `vals`: the sum of `vals[i] * u[i]`.
    pub fn commit(&self, vals: &Vec<Scalar>) -> (r: Vec<u8>)
        requires
            self.wf(),
            vals.len() == self.size,
        ensures
            is_g1(r@),
            r@ == g1_msm_of(points(self.u@), values(vals@)),
    {
        g1_msm(&self.u, vals)
    }

    /// The opening proof of the commitment to `vals` at every domain point, in domain order.
    pub fn open_all(&self, vals: &Vec<Scalar>) -> (r: Vec<Vec<u8>>)
        requires
            self.wf(),
            vals.len() == self.size,
            all_wf(vals@),
        ensures
            r.len() == self.size,
            all_g1(r@),
            points(r@) == fk_openings(points(self.y@), self.size as nat, values(vals@)),
    {
        let n = self.size;
        let n2 = 2 * n;
        let f = scalar_ifft(n, vals);
        let c = circulant(&f, n);
        let chat = scalar_fft(n2, &c);
        let mut w: Vec<Vec<u8>> = Vec::new();
        let mut k: usize = 0;
        while k < n2
            invariant
                k <= n2,
                n2 == 2 * n,
                n == self.size,
                self.wf(),
                chat.len() == n2,
                w.len() == k,
                forall|j: int| 0 <= j < k ==> is_g1(#[trigger] w@[j]@),
                forall|j: int|
                    0 <= j < k ==> #[trigger] w@[j]@ == g1_mul_of(
                        self.y@[j]@,
                        values(chat@)[j],
                    ),
            decreases n2 - k,
        {
            w.push(g1_mul(&self.y[k], &chat[k]));
            k = k + 1;
        }
        let hfull = g1_ifft(n2, &w);
        let mut h: Vec<Vec<u8>> = Vec::new();
        let mut i: usize = 0;
        while i < n
            invariant
                i <= n,
                hfull.len() == n2,
                n2 == 2 * n,
                all_g1(hfull@),
                h.len() == i,
                forall|j: int| 0 <= j < i ==> #[trigger] h@[j]@ == hfull@[j]@,
            decreases n - i,
        {
            h.push(hfull[i].clone());
            i = i + 1;
        }
        assert(points(h@) =~= points(hfull@).subrange(0, n as int));
        assert(points(w@) =~= Seq::new(
            2 * n as nat,
            |k: int| g1_mul_of(points(self.y@)[k], values(chat@)[k]),
        ));
        g1_fft(n, &h)
    }
}

/// Whether `n` is a supported domain size.
fn check_size(n: usize) -> (r: bool)
    ensures
        r == size_supported(n as nat),
{
    if n == 0 || n as u64 > MAX_DOMAIN / 2 || n > usize::MAX / 2 {
        return false;
    }
    let mut m: usize = n;
    while m > 1 && m % 2 == 0
        invariant
            m >= 1,
            is_pow2(m as nat) == is_pow2(n as nat),
        decreases m,
    {
        m = m / 2;
    }
    m == 1
}

/// The vector `tau_vector(n, tau)`, with the powers of tau computed by repeated multiplication.
fn tau_powers_vector(tau: &Scalar, n: usize) -> (r: Vec<Scalar>)
    requires
        tau.wf(),
        size_supported(n as nat),
    ensures
        r.len() == 2 * n,
        all_wf(r@),
        values(r@) == tau_vector(n as nat, tau.value()),
{
    let n2 = 2 * n;
    let mut v: Vec<Scalar> = Vec::new();
    let mut k: usize = 0;
    while k < n2
        invariant
            k <= n2,
            n2 == 2 * n,
            v.len() == k,
            forall|j: int| 0 <= j < k ==> (#[trigger] v@[j]).value() == 0 && v@[j].wf(),
        decreases n2 - k,
    {
        v.push(Scalar::zero());
        k = k + 1;
    }
    let mut p = Scalar::from_u64(1);
    let mut j: usize = 0;
    while j + 1 < n
        invariant
            n >= 1,
            j + 1 <= n,
            v.len() == n2,
            n2 == 2 * n,
            p.wf(),
            p.value() == tau_pow(tau.value(), j as nat),
            tau.wf(),
            all_wf(v@),
            forall|k: int|
                0 <= k < n2 ==> (#[trigger] v@[k]).value() == if n - 1 - j <= k && k + 2 <= n {
                    tau_pow(tau.value(), (n - 2 - k) as nat)
                } else {
                    0
                },
        decreases n - j,
    {
        v.set(n - 2 - j, p);
        p = field_mul(&p, tau);
        j = j + 1;
    }
    assert(values(v@) =~= tau_vector(n as nat, tau.value()));
    v
}

/// `circulant_column(f, n)` as a vector.
fn circulant(f: &Vec<Scalar>, n: usize) -> (r: Vec<Scalar>)
    requires
        f.len() == n,
        n >= 1,
        size_supported(n as nat),
        all_wf(f@),
    ensures
        r.len() == 2 * n,
        all_wf(r@),
        values(r@) == circulant_column(values(f@), n as nat),
{
    let n2 = 2 * n;
    let mut c: Vec<Scalar> = Vec::new();
    c.push(f[n - 1]);
    let mut k: usize = 1;
    while k < n2
        invariant
            1 <= k <= n2,
            n2 == 2 * n,
            f.len() == n,
            all_wf(f@),
            c.len() == k,
            all_wf(c@),
            forall|j: int|
                0 <= j < k ==> (#[trigger] c@[j]).value() == circulant_column(values(f@), n as nat)[j],
        decreases n2 - k,
    {
        if k <= n {
            c.push(Scalar::zero());
        } else {
            c.push(f[k - n - 1]);
        }
        k = k + 1;
    }
    assert(values(c@) =~= circulant_column(values(f@), n as nat));
    c
}

} // verus!
