//! A Regev-style Learning-With-Errors cryptosystem over `Z_q`, with every
//! intermediate value reduced modulo `q`.
use crate::matrix::{column, Matrix};
use crate::rounding::{f_inv_spec, lemma_round_div, lift_spec, round_div};
use crate::vector::Vector;
use rand::Rng;
use vstd::arithmetic::div_mod::{
    lemma_add_mod_noop, lemma_fundamental_div_mod, lemma_fundamental_div_mod_converse,
    lemma_mod_add_multiples_vanish, lemma_mod_bound, lemma_mod_twice, lemma_small_mod,
    lemma_sub_mod_noop_right,
};
use vstd::prelude::*;

verus! {

/// Parameters that the cryptosystem refuses.
#[derive(Debug, Clone, Copy, PartialEq, Eq, Structural)]
pub enum LweError {
    /// The ciphertext modulus `q` is at most 1.
    ModulusTooSmall,
    /// The plaintext modulus `t` is at most 1.
    PlaintextModulusTooSmall,
    /// The perturbation bound `r` is negative.
    NegativeBound,
    /// A plaintext entry is not below `t`.
    PlaintextOutOfRange,
}

/// `a[0]·b[0] + ... + a[n-1]·b[n-1]` over the integers.
pub open spec fn int_dot(a: Seq<u64>, b: Seq<u64>, n: int) -> int
    decreases n,
{
    if n <= 0 {
        0
    } else {
        int_dot(a, b, n - 1) + a[n - 1] * b[n - 1]
    }
}

/// The dot product of `a` and `b` over the integers, reduced modulo `q`.
pub open spec fn dot_mod_spec(a: Seq<u64>, b: Seq<u64>, q: int) -> int {
    int_dot(a, b, a.len() as int) % q
}

/// Each entry of `x` reduced to its residue in `[0, q)`.
pub open spec fn residues(x: Seq<i64>, q: int) -> Seq<u64> {
    Seq::new(x.len(), |i: int| (x[i] as int % q) as u64)
}

/// Relies on rand's `Rng::gen_range` on the thread-local generator: for a
/// non-empty half-open range it returns a value inside the range.
#[verifier::external_body]
fn draw_uniform(lo: i128, hi: i128) -> (r: i128)
    requires
        lo < hi,
    ensures
        lo <= r < hi,
{
    rand::thread_rng().gen_range(lo..hi)
}

/// The residue of `x` modulo `q`, in `[0, q)`.
pub fn reduce_i64(x: i64, q: u64) -> (r: u64)
    requires
        q > 0,
    ensures
        r as int == x as int % q as int,
{
    if x >= 0 {
        (x as u64) % q
    } else {
        let a: u128 = (0i128 - x as i128) as u128;
        let m: u128 = a % (q as u128);
        proof {
            let k = (a as int) / (q as int);
            lemma_fundamental_div_mod(a as int, q as int);
            if m == 0 {
                assert(x as int == (-k) * q + 0) by (nonlinear_arith)
                    requires
                        a == q * k + m,
                        m == 0,
                        x == -a,
                ;
                lemma_fundamental_div_mod_converse(x as int, q as int, -k, 0);
            } else {
                assert(x as int == (-k - 1) * q + (q - m)) by (nonlinear_arith)
                    requires
                        a == q * k + m,
                        x == -a,
                ;
                lemma_fundamental_div_mod_converse(x as int, q as int, -k - 1, q - m);
            }
        }
        if m == 0 {
            0
        } else {
            q - m as u64
        }
    }
}

/// The dot product of `a` and `b` modulo `q`.
pub fn dot_mod<const N: usize>(a: Vector<u64, N>, b: Vector<u64, N>, q: u64) -> (r: u64)
    requires
        q > 0,
    ensures
        r as int == dot_mod_spec(a@, b@, q as int),
{
    let mut acc: u64 = 0;
    let mut i: usize = 0;
    proof {
        lemma_small_mod(0, q as nat);
    }
    while i < N
        invariant
            0 <= i <= N,
            q > 0,
            acc as int == int_dot(a@, b@, i as int) % q as int,
        decreases N - i,
    {
        let x: u128 = a.0[i] as u128;
        let y: u128 = b.0[i] as u128;
        assert(x * y <= u64::MAX * u64::MAX) by (nonlinear_arith)
            requires
                x <= u64::MAX,
                y <= u64::MAX,
        ;
        let p: u128 = (x * y) % (q as u128);
        let s: u128 = (acc as u128 + p) % (q as u128);
        proof {
            let d = int_dot(a@, b@, i as int);
            let qi = q as int;
            let xy = x as int * y as int;
            lemma_add_mod_noop(d, xy, qi);
            lemma_mod_bound(d, qi);
            lemma_mod_bound(xy, qi);
            vstd::arithmetic::div_mod::lemma_mod_twice(xy, qi);
        }
        acc = s as u64;
        i = i + 1;
    }
    acc
}

/// The product of `a` with `v` modulo `q`.
pub fn mat_vec_mod<const M: usize, const N: usize>(
    a: Matrix<u64, M, N>,
    v: Vector<u64, N>,
    q: u64,
) -> (r: Vector<u64, M>)
    requires
        q > 0,
    ensures
        forall|i: int| 0 <= i < M ==> #[trigger] r@[i] as int == dot_mod_spec(a@[i], v@, q as int),
{
    let mut out: [u64; M] = [0u64; M];
    let mut i: usize = 0;
    while i < M
        invariant
            0 <= i <= M,
            q > 0,
            forall|k: int| 0 <= k < i ==> #[trigger] out@[k] as int == dot_mod_spec(a@[k], v@, q as int),
        decreases M - i,
    {
        out[i] = dot_mod(Vector(a.0[i]), v, q);
        i = i + 1;
    }
    Vector(out)
}

/// Each entry of `samples` reduced modulo `q`: turns rounded noise samples
/// into an error matrix over `Z_q`.
pub fn reduce_mod_matrix<const R: usize, const C: usize>(samples: Matrix<i64, R, C>, q: u64) -> (r:
    Result<Matrix<u64, R, C>, LweError>)
    ensures
        q <= 1 <==> r is Err,
        r is Err ==> r->Err_0 == LweError::ModulusTooSmall,
        r is Ok ==> forall|i: int, j: int|
            0 <= i < R && 0 <= j < C ==> #[trigger] r->Ok_0@[i][j] as int == samples@[i][j] as int
                % q as int,
{
    if q <= 1 {
        return Err(LweError::ModulusTooSmall);
    }
    let mut out: [[u64; C]; R] = [[0u64; C]; R];
    let mut i: usize = 0;
    while i < R
        invariant
            0 <= i <= R,
            q > 1,
            forall|k: int, j: int|
                0 <= k < i && 0 <= j < C ==> #[trigger] out@[k]@[j] as int == samples@[k][j] as int
                    % q as int,
        decreases R - i,
    {
        let row = reduce_mod_vector(Vector(samples.0[i]), q);
        out[i] = row.0;
        assert(forall|j: int| 0 <= j < C ==> out@[i as int]@[j] == #[trigger] row@[j]);
        i = i + 1;
    }
    Ok(Matrix(out))
}

/// Each entry of `x` reduced modulo `q`.
pub fn reduce_mod_vector<const N: usize>(x: Vector<i64, N>, q: u64) -> (r: Vector<u64, N>)
    requires
        q > 0,
    ensures
        r@ == residues(x@, q as int),
{
    let mut out: [u64; N] = [0u64; N];
    let mut i: usize = 0;
    while i < N
        invariant
            0 <= i <= N,
            q > 0,
            forall|k: int| 0 <= k < i ==> #[trigger] out@[k] as int == x@[k] as int % q as int,
        decreases N - i,
    {
        out[i] = reduce_i64(x.0[i], q);
        i = i + 1;
    }
    let r = Vector(out);
    assert(r@ =~= residues(x@, q as int));
    r
}

/// An `M`×`L` matrix of independent draws, each uniform over `[0, q)`.
pub fn rand_mod_matrix<const M: usize, const L: usize>(q: u64) -> (r: Result<
    Matrix<u64, M, L>,
    LweError,
>)
    ensures
        q <= 1 <==> r is Err,
        r is Err ==> r->Err_0 == LweError::ModulusTooSmall,
        r is Ok ==> forall|i: int, j: int|
            0 <= i < M && 0 <= j < L ==> #[trigger] r->Ok_0@[i][j] < q,
{
    if q <= 1 {
        return Err(LweError::ModulusTooSmall);
    }
    let mut out: [[u64; L]; M] = [[0u64; L]; M];
    let mut i: usize = 0;
    while i < M
        invariant
            0 <= i <= M,
            q > 1,
            forall|k: int, j: int| 0 <= k < i && 0 <= j < L ==> #[trigger] out@[k]@[j] < q,
        decreases M - i,
    {
        let mut row: [u64; L] = [0u64; L];
        let mut j: usize = 0;
        while j < L
            invariant
                0 <= j <= L,
                q > 1,
                forall|k: int| 0 <= k < j ==> #[trigger] row@[k] < q,
            decreases L - j,
        {
            row[j] = draw_uniform(0, q as i128) as u64;
            j = j + 1;
        }
        out[i] = row;
        assert(forall|j: int| 0 <= j < L ==> out@[i as int]@[j] == #[trigger] row@[j]);
        i = i + 1;
    }
    Ok(Matrix(out))
}

/// A perturbation vector of `N` independent draws, each uniform over the
/// integers in `[-r, r]`.
pub fn random_perturbation_vector<const N: usize>(r: i64) -> (res: Result<Vector<i64, N>, LweError>)
    ensures
        r < 0 <==> res is Err,
        res is Err ==> res->Err_0 == LweError::NegativeBound,
        res is Ok ==> forall|i: int| 0 <= i < N ==> -r <= #[trigger] res->Ok_0@[i] <= r,
{
    if r < 0 {
        return Err(LweError::NegativeBound);
    }
    let mut out: [i64; N] = [0i64; N];
    let mut i: usize = 0;
    while i < N
        invariant
            0 <= i <= N,
            0 <= r,
            forall|k: int| 0 <= k < i ==> -r <= #[trigger] out@[k] <= r,
        decreases N - i,
    {
        out[i] = draw_uniform(-(r as i128), r as i128 + 1) as i64;
        i = i + 1;
    }
    Ok(Vector(out))
}

/// `round_div(a, b)` on machine integers.
fn round_div_u128(a: u128, b: u128) -> (r: u128)
    requires
        b > 0,
    ensures
        r as int == round_div(a as int, b as int),
{
    proof {
        lemma_round_div(a as int, b as int);
        lemma_fundamental_div_mod(a as int, b as int);
    }
    let k = a / b;
    let rem = a % b;
    if rem >= b - rem {
        assert(k < u128::MAX) by (nonlinear_arith)
            requires
                a == b * k + rem,
                rem >= b - rem,
                b > 0,
                rem >= 0,
                k >= 0,
                a <= u128::MAX,
        ;
        k + 1
    } else {
        k
    }
}

/// The plaintext symbol for one residue: `round((t / q) · v) mod t`.
fn f_inv_entry(v: u64, t: u64, q: u64) -> (r: u64)
    requires
        q > 0,
        t > 0,
    ensures
        r as int == f_inv_spec(v as int, t as int, q as int),
        r < t,
{
    let x: u128 = t as u128;
    let y: u128 = v as u128;
    assert(x * y <= u64::MAX * u64::MAX) by (nonlinear_arith)
        requires
            x <= u64::MAX,
            y <= u64::MAX,
    ;
    let rd = round_div_u128(x * y, q as u128);
    (rd % (t as u128)) as u64
}

/// Decodes residues modulo `q` to plaintext symbols modulo `t`:
/// entry `i` becomes `round((t / q) · v[i]) mod t`.
pub fn f_inv<const L: usize>(v: Vector<u64, L>, t: u64, q: u64) -> (r: Result<
    Vector<u64, L>,
    LweError,
>)
    ensures
        q <= 1 ==> r == Err::<Vector<u64, L>, LweError>(LweError::ModulusTooSmall),
        q > 1 && t <= 1 ==> r == Err::<Vector<u64, L>, LweError>(
            LweError::PlaintextModulusTooSmall,
        ),
        q > 1 && t > 1 ==> r is Ok && forall|i: int|
            0 <= i < L ==> #[trigger] r->Ok_0@[i] as int == f_inv_spec(
                v@[i] as int,
                t as int,
                q as int,
            ),
{
    if q <= 1 {
        return Err(LweError::ModulusTooSmall);
    }
    if t <= 1 {
        return Err(LweError::PlaintextModulusTooSmall);
    }
    let mut out: [u64; L] = [0u64; L];
    let mut i: usize = 0;
    while i < L
        invariant
            0 <= i <= L,
            q > 1,
            t > 1,
            forall|k: int|
                0 <= k < i ==> #[trigger] out@[k] as int == f_inv_spec(
                    v@[k] as int,
                    t as int,
                    q as int,
                ),
        decreases L - i,
    {
        out[i] = f_inv_entry(v.0[i], t, q);
        i = i + 1;
    }
    Ok(Vector(out))
}

/// Carries plaintext symbols up to residues modulo `q`: entry `i` becomes
/// `round(w[i] · (q / t))`.
pub fn lift<const L: usize>(w: Vector<u64, L>, t: u64, q: u64) -> (r: Result<
    Vector<u64, L>,
    LweError,
>)
    ensures
        q <= 1 ==> r == Err::<Vector<u64, L>, LweError>(LweError::ModulusTooSmall),
        q > 1 && t <= 1 ==> r == Err::<Vector<u64, L>, LweError>(
            LweError::PlaintextModulusTooSmall,
        ),
        q > 1 && t > 1 && (exists|i: int| 0 <= i < L && #[trigger] w@[i] >= t) ==> r == Err::<
            Vector<u64, L>,
            LweError,
        >(LweError::PlaintextOutOfRange),
        q > 1 && t > 1 && (forall|i: int| 0 <= i < L ==> #[trigger] w@[i] < t) ==> r is Ok
            && forall|i: int|
            0 <= i < L ==> #[trigger] r->Ok_0@[i] as int == lift_spec(
                w@[i] as int,
                t as int,
                q as int,
            ),
{
    if q <= 1 {
        return Err(LweError::ModulusTooSmall);
    }
    if t <= 1 {
        return Err(LweError::PlaintextModulusTooSmall);
    }
    if !all_below(w, t) {
        return Err(LweError::PlaintextOutOfRange);
    }
    let mut out: [u64; L] = [0u64; L];
    let mut i: usize = 0;
    while i < L
        invariant
            0 <= i <= L,
            q > 1,
            t > 1,
            forall|k: int| 0 <= k < L ==> #[trigger] w@[k] < t,
            forall|k: int|
                0 <= k < i ==> #[trigger] out@[k] as int == lift_spec(
                    w@[k] as int,
                    t as int,
                    q as int,
                ),
        decreases L - i,
    {
        let x: u128 = w.0[i] as u128;
        assert(w@[i as int] < t);
        let y: u128 = q as u128;
        assert(x * y <= u64::MAX * u64::MAX) by (nonlinear_arith)
            requires
                x <= u64::MAX,
                y <= u64::MAX,
        ;
        let rd = round_div_u128(x * y, t as u128);
        proof {
            lemma_fundamental_div_mod(2 * (x * y) + t, 2 * t);
            let rem = (2 * (x * y) + t) % (2 * t as int);
            assert(rd <= q) by (nonlinear_arith)
                requires
                    2 * (x * y) + t == 2 * t * rd + rem,
                    0 <= rem,
                    x < t,
                    y == q,
                    t > 1,
            ;
        }
        out[i] = rd as u64;
        i = i + 1;
    }
    Ok(Vector(out))
}

/// Whether every entry of `w` is below `t`.
fn all_below<const L: usize>(w: Vector<u64, L>, t: u64) -> (r: bool)
    ensures
        r == forall|i: int| 0 <= i < L ==> #[trigger] w@[i] < t,
{
    let mut i: usize = 0;
    while i < L
        invariant
            0 <= i <= L,
            forall|k: int| 0 <= k < i ==> #[trigger] w@[k] < t,
        decreases L - i,
    {
        if w.0[i] >= t {
            assert(w@[i as int] >= t);
            return false;
        }
        i = i + 1;
    }
    true
}

/// The public companion matrix `P = (A·S + E) mod q`.
pub fn public_key<const N: usize, const M: usize, const L: usize>(
    a: Matrix<u64, N, M>,
    s: Matrix<u64, M, L>,
    e: Matrix<u64, N, L>,
    q: u64,
) -> (r: Matrix<u64, N, L>)
    requires
        q > 0,
    ensures
        forall|i: int, l: int|
            0 <= i < N && 0 <= l < L ==> #[trigger] r@[i][l] as int == (int_dot(
                a@[i],
                column(s@, l),
                M as int,
            ) + e@[i][l]) % q as int,
{
    let mut cols: [Vector<u64, M>; L] = [Vector([0u64; M]); L];
    let mut c: usize = 0;
    while c < L
        invariant
            0 <= c <= L,
            forall|k: int| 0 <= k < c ==> #[trigger] cols@[k]@ == column(s@, k),
        decreases L - c,
    {
        cols[c] = s.column(c);
        c = c + 1;
    }
    let mut out: [[u64; L]; N] = [[0u64; L]; N];
    let mut i: usize = 0;
    while i < N
        invariant
            0 <= i <= N,
            q > 0,
            forall|k: int| 0 <= k < L ==> #[trigger] cols@[k]@ == column(s@, k),
            forall|k: int, l: int|
                0 <= k < i && 0 <= l < L ==> #[trigger] out@[k]@[l] as int == (int_dot(
                    a@[k],
                    column(s@, l),
                    M as int,
                ) + e@[k][l]) % q as int,
        decreases N - i,
    {
        let mut row: [u64; L] = [0u64; L];
        let mut l: usize = 0;
        while l < L
            invariant
                0 <= l <= L,
                0 <= i < N,
                q > 0,
                forall|k: int| 0 <= k < L ==> #[trigger] cols@[k]@ == column(s@, k),
                forall|k: int|
                    0 <= k < l ==> #[trigger] row@[k] as int == (int_dot(
                        a@[i as int],
                        column(s@, k),
                        M as int,
                    ) + e@[i as int][k]) % q as int,
            decreases L - l,
        {
            let d = dot_mod(Vector(a.0[i]), cols[l], q);
            let x = e.0[i][l];
            proof {
                let dot = int_dot(a@[i as int], column(s@, l as int), M as int);
                lemma_add_mod_noop(dot, x as int, q as int);
                lemma_mod_twice(dot, q as int);
                lemma_add_mod_noop(d as int, x as int, q as int);
            }
            row[l] = ((d as u128 + x as u128) % (q as u128)) as u64;
            l = l + 1;
        }
        out[i] = row;
        assert(forall|l: int| 0 <= l < L ==> out@[i as int]@[l] == #[trigger] row@[l]);
        i = i + 1;
    }
    Matrix(out)
}

/// A key pair: the secret `S`, and the public pair `(A, P)`.
pub struct KeyPair<const M: usize, const N: usize, const L: usize> {
    pub secret: Matrix<u64, M, L>,
    pub public_a: Matrix<u64, N, M>,
    pub public_p: Matrix<u64, N, L>,
}

/// Generates a key pair: `S` uniform `M`×`L` and `A` uniform `N`×`M` over
/// `Z_q`, and `P = (A·S + E) mod q`, where `E` is `error_samples` reduced
/// modulo `q` (rounded Gaussian noise drawn by the caller).
pub fn generate_keys<const M: usize, const N: usize, const L: usize>(
    q: u64,
    error_samples: Matrix<i64, N, L>,
) -> (r: Result<KeyPair<M, N, L>, LweError>)
    ensures
        q <= 1 <==> r is Err,
        r is Err ==> r->Err_0 == LweError::ModulusTooSmall,
        r is Ok ==> {
            let k = r->Ok_0;
            &&& forall|i: int, j: int|
                0 <= i < M && 0 <= j < L ==> #[trigger] k.secret@[i][j] < q
            &&& forall|i: int, j: int|
                0 <= i < N && 0 <= j < M ==> #[trigger] k.public_a@[i][j] < q
            &&& forall|i: int, l: int|
                0 <= i < N && 0 <= l < L ==> #[trigger] k.public_p@[i][l] as int == (int_dot(
                    k.public_a@[i],
                    column(k.secret@, l),
                    M as int,
                ) + error_samples@[i][l] as int % q as int) % q as int
        },
{
    let e = match reduce_mod_matrix(error_samples, q) {
        Ok(e) => e,
        Err(err) => return Err(err),
    };
    let secret = match rand_mod_matrix::<M, L>(q) {
        Ok(s) => s,
        Err(err) => return Err(err),
    };
    let public_a = match rand_mod_matrix::<N, M>(q) {
        Ok(a) => a,
        Err(err) => return Err(err),
    };
    let public_p = public_key(public_a, secret, e, q);
    Ok(KeyPair { secret, public_a, public_p })
}

/// A ciphertext: `u = Aᵀ·x` and `c = Pᵀ·x + m`, both modulo `q`.
pub struct Ciphertext<const M: usize, const L: usize> {
    pub u: Vector<u64, M>,
    pub c: Vector<u64, L>,
}

/// Encrypts the plaintext `message` (entries in `[0, t)`) under the public
/// pair `(A, P)` with the perturbation `x`: `u = Aᵀ·x mod q` and
/// `c = (Pᵀ·x + m) mod q`.
pub fn encrypt<const M: usize, const N: usize, const L: usize>(
    public_a: Matrix<u64, N, M>,
    public_p: Matrix<u64, N, L>,
    message: Vector<u64, L>,
    perturbation: Vector<i64, N>,
    q: u64,
    t: u64,
) -> (r: Result<Ciphertext<M, L>, LweError>)
    ensures
        q <= 1 ==> r is Err && r->Err_0 == LweError::ModulusTooSmall,
        q > 1 && t <= 1 ==> r is Err && r->Err_0 == LweError::PlaintextModulusTooSmall,
        q > 1 && t > 1 && (exists|i: int| 0 <= i < L && #[trigger] message@[i] >= t) ==> r is Err
            && r->Err_0 == LweError::PlaintextOutOfRange,
        q > 1 && t > 1 && (forall|i: int| 0 <= i < L ==> #[trigger] message@[i] < t) ==> r is Ok,
        r is Ok ==> {
            let x = residues(perturbation@, q as int);
            let ct = r->Ok_0;
            &&& forall|k: int|
                0 <= k < M ==> #[trigger] ct.u@[k] as int == dot_mod_spec(
                    column(public_a@, k),
                    x,
                    q as int,
                )
            &&& forall|l: int|
                0 <= l < L ==> #[trigger] ct.c@[l] as int == (int_dot(
                    column(public_p@, l),
                    x,
                    N as int,
                ) + message@[l]) % q as int
        },
{
    if q <= 1 {
        return Err(LweError::ModulusTooSmall);
    }
    if t <= 1 {
        return Err(LweError::PlaintextModulusTooSmall);
    }
    if !all_below(message, t) {
        return Err(LweError::PlaintextOutOfRange);
    }
    let x = reduce_mod_vector(perturbation, q);
    let u = mat_vec_mod(public_a.transpose(), x, q);
    let px = mat_vec_mod(public_p.transpose(), x, q);
    let mut c: [u64; L] = [0u64; L];
    let mut l: usize = 0;
    while l < L
        invariant
            0 <= l <= L,
            q > 1,
            forall|k: int|
                0 <= k < L ==> #[trigger] px@[k] as int == dot_mod_spec(
                    column(public_p@, k),
                    x@,
                    q as int,
                ),
            forall|k: int|
                0 <= k < l ==> #[trigger] c@[k] as int == (int_dot(
                    column(public_p@, k),
                    x@,
                    N as int,
                ) + message@[k]) % q as int,
        decreases L - l,
    {
        let m = message.0[l];
        proof {
            let dot = int_dot(column(public_p@, l as int), x@, N as int);
            lemma_add_mod_noop(dot, m as int, q as int);
            lemma_mod_twice(dot, q as int);
            lemma_add_mod_noop(px@[l as int] as int, m as int, q as int);
        }
        c[l] = ((px.0[l] as u128 + m as u128) % (q as u128)) as u64;
        l = l + 1;
    }
    Ok(Ciphertext { u, c: Vector(c) })
}

/// Decrypts `(u, c)` with the secret `S`: `d = (c − Sᵀ·u) mod q`, then each
/// entry of `d` decoded with `f_inv`.
pub fn decrypt<const M: usize, const L: usize>(
    c: Vector<u64, L>,
    secret_key: Matrix<u64, M, L>,
    u: Vector<u64, M>,
    q: u64,
    t: u64,
) -> (r: Result<Vector<u64, L>, LweError>)
    ensures
        q <= 1 ==> r is Err && r->Err_0 == LweError::ModulusTooSmall,
        q > 1 && t <= 1 ==> r is Err && r->Err_0 == LweError::PlaintextModulusTooSmall,
        q > 1 && t > 1 ==> r is Ok && forall|l: int|
            0 <= l < L ==> #[trigger] r->Ok_0@[l] as int == f_inv_spec(
                (c@[l] - int_dot(column(secret_key@, l), u@, M as int)) % q as int,
                t as int,
                q as int,
            ),
{
    if q <= 1 {
        return Err(LweError::ModulusTooSmall);
    }
    if t <= 1 {
        return Err(LweError::PlaintextModulusTooSmall);
    }
    let su = mat_vec_mod(secret_key.transpose(), u, q);
    let mut out: [u64; L] = [0u64; L];
    let mut l: usize = 0;
    while l < L
        invariant
            0 <= l <= L,
            q > 1,
            t > 1,
            forall|k: int|
                0 <= k < L ==> #[trigger] su@[k] as int == dot_mod_spec(
                    column(secret_key@, k),
                    u@,
                    q as int,
                ),
            forall|k: int|
                0 <= k < l ==> #[trigger] out@[k] as int == f_inv_spec(
                    (c@[k] - int_dot(column(secret_key@, k), u@, M as int)) % q as int,
                    t as int,
                    q as int,
                ),
        decreases L - l,
    {
        let s = su.0[l];
        let ci = c.0[l];
        assert(s == su@[l as int] && ci == c@[l as int]);
        proof {
            let dot = int_dot(column(secret_key@, l as int), u@, M as int);
            lemma_mod_bound(dot, q as int);
            lemma_sub_mod_noop_right(ci as int, dot, q as int);
            lemma_mod_add_multiples_vanish(ci - s, q as int);
        }
        let d = ((ci as u128 + q as u128 - s as u128) % (q as u128)) as u64;
        out[l] = f_inv_entry(d, t, q);
        l = l + 1;
    }
    Ok(Vector(out))
}

/// Packs a text into a plaintext vector: the code point of character `i`
/// for `i < min(len, L)`, zero after.
pub fn pack_message<const L: usize>(text: &Vec<char>) -> (r: Vector<u64, L>)
    ensures
        forall|i: int|
            0 <= i < L ==> #[trigger] r@[i] == if i < text@.len() {
                text@[i] as u32 as u64
            } else {
                0u64
            },
{
    let mut out: [u64; L] = [0u64; L];
    let mut i: usize = 0;
    while i < L
        invariant
            0 <= i <= L,
            forall|k: int|
                0 <= k < i ==> #[trigger] out@[k] == if k < text@.len() {
                    text@[k] as u32 as u64
                } else {
                    0u64
                },
        decreases L - i,
    {
        out[i] = if i < text.len() {
            text[i] as u32 as u64
        } else {
            0
        };
        i = i + 1;
    }
    Vector(out)
}

} // verus!
