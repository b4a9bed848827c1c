//! Algebraic laws of the matrix and vector operations.
use crate::matrix::{column, identity_spec, mat_add, mat_mul, mat_vec, transpose_spec, Matrix};
use crate::sums::{
    dot_spec, lemma_dot_as_sum, lemma_mul_zero_right, lemma_sum_add, lemma_sum_congr,
    lemma_sum_scale, lemma_sum_scale_right, lemma_sum_single, lemma_sum_swap, sum,
};
use crate::traits::RingElement;
use crate::vector::{vec_add, Vector};
use vstd::prelude::*;

verus! {

/// Transposing twice gives back the matrix.
pub proof fn lemma_transpose_involution<T, const M: usize, const N: usize>(a: Matrix<T, M, N>)
    ensures
        transpose_spec(transpose_spec(a@, N as nat), M as nat) == a@,
{
    let t = transpose_spec(transpose_spec(a@, N as nat), M as nat);
    assert forall|i: int| 0 <= i < M implies #[trigger] t[i] =~= a@[i] by {}
    assert(t =~= a@);
}

/// The identity is neutral on the left: `I_M · A = A`.
pub proof fn lemma_identity_left<T: RingElement, const M: usize, const N: usize>(
    a: Matrix<T, M, N>,
)
    ensures
        mat_mul(identity_spec::<T>(M as nat), a@, N as nat) == a@,
{
    let id = identity_spec::<T>(M as nat);
    let p = mat_mul(id, a@, N as nat);
    assert forall|i: int| 0 <= i < M implies #[trigger] p[i] =~= a@[i] by {
        assert forall|c: int| 0 <= c < N implies #[trigger] p[i][c] == a@[i][c] by {
            let col = column(a@, c);
            lemma_dot_as_sum(id[i], col, M as int);
            let f = |j: int| T::mul_spec(id[i][j], col[j]);
            assert forall|j: int| 0 <= j < M && j != i implies #[trigger] f(j) == T::zero_spec() by {
                T::lemma_mul_zero(col[j]);
            }
            lemma_sum_single(f, i, M as int);
            T::lemma_mul_one(col[i]);
        }
    }
    assert(p =~= a@);
}

/// The identity is neutral on the right: `A · I_N = A`.
pub proof fn lemma_identity_right<T: RingElement, const M: usize, const N: usize>(
    a: Matrix<T, M, N>,
)
    ensures
        mat_mul(a@, identity_spec::<T>(N as nat), N as nat) == a@,
{
    let id = identity_spec::<T>(N as nat);
    let p = mat_mul(a@, id, N as nat);
    assert forall|i: int| 0 <= i < M implies #[trigger] p[i] =~= a@[i] by {
        assert forall|c: int| 0 <= c < N implies #[trigger] p[i][c] == a@[i][c] by {
            let col = column(id, c);
            lemma_dot_as_sum(a@[i], col, N as int);
            let f = |j: int| T::mul_spec(a@[i][j], col[j]);
            assert forall|j: int| 0 <= j < N && j != c implies #[trigger] f(j) == T::zero_spec() by {
                lemma_mul_zero_right(a@[i][j]);
            }
            lemma_sum_single(f, c, N as int);
            T::lemma_mul_comm(a@[i][c], T::one_spec());
            T::lemma_mul_one(a@[i][c]);
        }
    }
    assert(p =~= a@);
}

/// Matrix multiplication is associative: `(A·B)·C = A·(B·C)`.
pub proof fn lemma_mul_assoc<
    T: RingElement,
    const M: usize,
    const N: usize,
    const K: usize,
    const P: usize,
>(a: Matrix<T, M, N>, b: Matrix<T, N, K>, c: Matrix<T, K, P>)
    ensures
        mat_mul(mat_mul(a@, b@, K as nat), c@, P as nat) == mat_mul(
            a@,
            mat_mul(b@, c@, P as nat),
            P as nat,
        ),
{
    let ab = mat_mul(a@, b@, K as nat);
    let bc = mat_mul(b@, c@, P as nat);
    let lhs = mat_mul(ab, c@, P as nat);
    let rhs = mat_mul(a@, bc, P as nat);
    assert forall|i: int| 0 <= i < M implies #[trigger] lhs[i] =~= rhs[i] by {
        assert forall|l: int| 0 <= l < P implies #[trigger] lhs[i][l] == rhs[i][l] by {
            lemma_mul_assoc_entry(a, b, c, i, l);
        }
    }
    assert(lhs =~= rhs);
}

proof fn lemma_mul_assoc_entry<
    T: RingElement,
    const M: usize,
    const N: usize,
    const K: usize,
    const P: usize,
>(a: Matrix<T, M, N>, b: Matrix<T, N, K>, c: Matrix<T, K, P>, i: int, l: int)
    requires
        0 <= i < M,
        0 <= l < P,
    ensures
        dot_spec(mat_mul(a@, b@, K as nat)[i], column(c@, l)) == dot_spec(
            a@[i],
            column(mat_mul(b@, c@, P as nat), l),
        ),
{
    let ab = mat_mul(a@, b@, K as nat);
    let bc = mat_mul(b@, c@, P as nat);
    let f = |j: int, k: int| T::mul_spec(T::mul_spec(a@[i][j], b@[j][k]), c@[k][l]);
    // Left side: a sum over k of sums over j.
    let cl = column(c@, l);
    lemma_dot_as_sum(ab[i], cl, K as int);
    let lk = |k: int| T::mul_spec(ab[i][k], cl[k]);
    let lk2 = |k: int| sum(|j: int| f(j, k), N as int);
    assert forall|k: int| 0 <= k < K implies #[trigger] lk(k) == lk2(k) by {
        let bk = column(b@, k);
        lemma_dot_as_sum(a@[i], bk, N as int);
        let g = |j: int| T::mul_spec(a@[i][j], bk[j]);
        lemma_sum_scale_right(c@[k][l], g, N as int);
        let g2 = |j: int| T::mul_spec(g(j), c@[k][l]);
        assert forall|j: int| 0 <= j < N implies #[trigger] g2(j) == (|j: int| f(j, k))(j) by {}
        lemma_sum_congr(g2, |j: int| f(j, k), N as int);
    }
    lemma_sum_congr(lk, lk2, K as int);
    // Right side: a sum over j of sums over k.
    let bl = column(bc, l);
    lemma_dot_as_sum(a@[i], bl, N as int);
    let rj = |j: int| T::mul_spec(a@[i][j], bl[j]);
    let rj2 = |j: int| sum(|k: int| f(j, k), K as int);
    assert forall|j: int| 0 <= j < N implies #[trigger] rj(j) == rj2(j) by {
        let cl2 = column(c@, l);
        lemma_dot_as_sum(b@[j], cl2, K as int);
        let h = |k: int| T::mul_spec(b@[j][k], cl2[k]);
        lemma_sum_scale(a@[i][j], h, K as int);
        let h2 = |k: int| T::mul_spec(a@[i][j], h(k));
        assert forall|k: int| 0 <= k < K implies #[trigger] h2(k) == (|k: int| f(j, k))(k) by {
            T::lemma_mul_assoc(a@[i][j], b@[j][k], c@[k][l]);
        }
        lemma_sum_congr(h2, |k: int| f(j, k), K as int);
    }
    lemma_sum_congr(rj, rj2, N as int);
    lemma_sum_swap(f, N as int, K as int);
}

/// Left distributivity: `A·(B + C) = A·B + A·C`.
pub proof fn lemma_mul_distrib_left<T: RingElement, const M: usize, const N: usize, const K: usize>(
    a: Matrix<T, M, N>,
    b: Matrix<T, N, K>,
    c: Matrix<T, N, K>,
)
    ensures
        mat_mul(a@, mat_add(b@, c@), K as nat) == mat_add(
            mat_mul(a@, b@, K as nat),
            mat_mul(a@, c@, K as nat),
        ),
{
    let lhs = mat_mul(a@, mat_add(b@, c@), K as nat);
    let rhs = mat_add(mat_mul(a@, b@, K as nat), mat_mul(a@, c@, K as nat));
    assert forall|i: int| 0 <= i < M implies #[trigger] lhs[i] =~= rhs[i] by {
        assert forall|l: int| 0 <= l < K implies #[trigger] lhs[i][l] == rhs[i][l] by {
            let bl = column(b@, l);
            let cl = column(c@, l);
            let sl = column(mat_add(b@, c@), l);
            lemma_dot_as_sum(a@[i], bl, N as int);
            lemma_dot_as_sum(a@[i], cl, N as int);
            lemma_dot_as_sum(a@[i], sl, N as int);
            let fb = |j: int| T::mul_spec(a@[i][j], bl[j]);
            let fc = |j: int| T::mul_spec(a@[i][j], cl[j]);
            let fs = |j: int| T::mul_spec(a@[i][j], sl[j]);
            lemma_sum_add(fb, fc, N as int);
            let fbc = |j: int| T::add_spec(fb(j), fc(j));
            assert forall|j: int| 0 <= j < N implies #[trigger] fs(j) == fbc(j) by {
                T::lemma_distrib(a@[i][j], b@[j][l], c@[j][l]);
            }
            lemma_sum_congr(fs, fbc, N as int);
        }
    }
    assert(lhs =~= rhs);
}

/// Right distributivity over a vector: `(A + B)·v = A·v + B·v`.
pub proof fn lemma_mul_vector_distrib<T: RingElement, const M: usize, const N: usize>(
    a: Matrix<T, M, N>,
    b: Matrix<T, M, N>,
    v: Vector<T, N>,
)
    ensures
        mat_vec(mat_add(a@, b@), v@) == vec_add(mat_vec(a@, v@), mat_vec(b@, v@)),
{
    let lhs = mat_vec(mat_add(a@, b@), v@);
    let rhs = vec_add(mat_vec(a@, v@), mat_vec(b@, v@));
    assert forall|i: int| 0 <= i < M implies #[trigger] lhs[i] == rhs[i] by {
        let s = vec_add(a@[i], b@[i]);
        lemma_dot_as_sum(a@[i], v@, N as int);
        lemma_dot_as_sum(b@[i], v@, N as int);
        lemma_dot_as_sum(s, v@, N as int);
        let fa = |j: int| T::mul_spec(a@[i][j], v@[j]);
        let fb = |j: int| T::mul_spec(b@[i][j], v@[j]);
        let fs = |j: int| T::mul_spec(s[j], v@[j]);
        lemma_sum_add(fa, fb, N as int);
        let fab = |j: int| T::add_spec(fa(j), fb(j));
        assert forall|j: int| 0 <= j < N implies #[trigger] fs(j) == fab(j) by {
            T::lemma_mul_comm(s[j], v@[j]);
            T::lemma_distrib(v@[j], a@[i][j], b@[i][j]);
            T::lemma_mul_comm(v@[j], a@[i][j]);
            T::lemma_mul_comm(v@[j], b@[i][j]);
        }
        lemma_sum_congr(fs, fab, N as int);
    }
    assert(lhs =~= rhs);
}

/// The dot product is symmetric: `dot(a, b) = dot(b, a)`.
pub proof fn lemma_dot_symmetric<T: RingElement, const N: usize>(a: Vector<T, N>, b: Vector<T, N>)
    ensures
        dot_spec(a@, b@) == dot_spec(b@, a@),
{
    lemma_dot_as_sum(a@, b@, N as int);
    lemma_dot_as_sum(b@, a@, N as int);
    let f = |j: int| T::mul_spec(a@[j], b@[j]);
    let g = |j: int| T::mul_spec(b@[j], a@[j]);
    assert forall|j: int| 0 <= j < N implies #[trigger] f(j) == g(j) by {
        T::lemma_mul_comm(a@[j], b@[j]);
    }
    lemma_sum_congr(f, g, N as int);
}

} // verus!
