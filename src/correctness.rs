//! Why decryption works: what the decryptor sees is the plaintext plus the
//! noise term `Eᵀ·x`, modulo `q`.
use crate::lwe::{dot_mod_spec, int_dot};
use crate::matrix::{column, Matrix};
use crate::rounding::{f_inv_spec, round_div};
use crate::vector::Vector;
use vstd::arithmetic::div_mod::{
    lemma_add_mod_noop, lemma_fundamental_div_mod_converse, lemma_mod_twice, lemma_mul_mod_noop_left,
    lemma_small_mod, lemma_sub_mod_noop,
};
use vstd::arithmetic::mul::{
    lemma_mul_is_associative, lemma_mul_is_commutative, lemma_mul_is_distributive_add,
};
use vstd::prelude::*;

verus! {

/// `f(0) + ... + f(n - 1)` over the integers.
pub open spec fn isum(f: spec_fn(int) -> int, n: int) -> int
    decreases n,
{
    if n <= 0 {
        0
    } else {
        isum(f, n - 1) + f(n - 1)
    }
}

proof fn lemma_int_dot_as_sum(a: Seq<u64>, b: Seq<u64>, n: int)
    ensures
        int_dot(a, b, n) == isum(|j: int| a[j] * b[j], n),
    decreases n,
{
    if n > 0 {
        lemma_int_dot_as_sum(a, b, n - 1);
    }
}

proof fn lemma_isum_congr(f: spec_fn(int) -> int, g: spec_fn(int) -> int, n: int)
    requires
        forall|i: int| 0 <= i < n ==> #[trigger] f(i) == g(i),
    ensures
        isum(f, n) == isum(g, n),
    decreases n,
{
    if n > 0 {
        lemma_isum_congr(f, g, n - 1);
    }
}

proof fn lemma_add_cong(x: int, x2: int, y: int, y2: int, q: int)
    requires
        q > 0,
        x % q == x2 % q,
        y % q == y2 % q,
    ensures
        (x + y) % q == (x2 + y2) % q,
{
    lemma_add_mod_noop(x, y, q);
    lemma_add_mod_noop(x2, y2, q);
}

proof fn lemma_sub_cong(x: int, x2: int, y: int, y2: int, q: int)
    requires
        q > 0,
        x % q == x2 % q,
        y % q == y2 % q,
    ensures
        (x - y) % q == (x2 - y2) % q,
{
    lemma_sub_mod_noop(x, y, q);
    lemma_sub_mod_noop(x2, y2, q);
}

/// Sums of pointwise congruent terms are congruent.
proof fn lemma_isum_mod_congr(f: spec_fn(int) -> int, g: spec_fn(int) -> int, n: int, q: int)
    requires
        q > 0,
        forall|i: int| 0 <= i < n ==> #[trigger] f(i) % q == g(i) % q,
    ensures
        isum(f, n) % q == isum(g, n) % q,
    decreases n,
{
    if n > 0 {
        lemma_isum_mod_congr(f, g, n - 1, q);
        lemma_add_cong(isum(f, n - 1), isum(g, n - 1), f(n - 1), g(n - 1), q);
    }
}

proof fn lemma_isum_add(f: spec_fn(int) -> int, g: spec_fn(int) -> int, n: int)
    ensures
        isum(|i: int| f(i) + g(i), n) == isum(f, n) + isum(g, n),
    decreases n,
{
    if n > 0 {
        lemma_isum_add(f, g, n - 1);
    }
}

proof fn lemma_isum_scale(c: int, f: spec_fn(int) -> int, n: int)
    ensures
        c * isum(f, n) == isum(|i: int| c * f(i), n),
    decreases n,
{
    if n > 0 {
        lemma_isum_scale(c, f, n - 1);
        lemma_mul_is_distributive_add(c, isum(f, n - 1), f(n - 1));
    }
}

proof fn lemma_isum_swap(f: spec_fn(int, int) -> int, n: int, m: int)
    ensures
        isum(|i: int| isum(|j: int| f(i, j), m), n) == isum(|j: int| isum(|i: int| f(i, j), n), m),
    decreases n,
{
    if n <= 0 {
        let g1 = |j: int| isum(|i: int| f(i, j), n);
        let g2 = |j: int| 0int;
        assert forall|j: int| 0 <= j < m implies #[trigger] g1(j) == g2(j) by {}
        lemma_isum_congr(g1, g2, m);
        lemma_isum_zero(m);
    } else {
        lemma_isum_swap(f, n - 1, m);
        let g = |j: int| isum(|i: int| f(i, j), n - 1);
        let h = |j: int| f(n - 1, j);
        lemma_isum_add(g, h, m);
        let g1 = |j: int| g(j) + h(j);
        let g2 = |j: int| isum(|i: int| f(i, j), n);
        assert forall|j: int| 0 <= j < m implies #[trigger] g1(j) == g2(j) by {}
        lemma_isum_congr(g1, g2, m);
    }
}

proof fn lemma_isum_zero(n: int)
    ensures
        isum(|i: int| 0int, n) == 0,
    decreases n,
{
    if n > 0 {
        lemma_isum_zero(n - 1);
    }
}

/// With `P = (A·S + E) mod q`, `u = Aᵀ·x mod q` and `c = (Pᵀ·x + m) mod q`,
/// the value `c − Sᵀ·u` that decryption decodes is `m + Eᵀ·x` modulo `q`.
pub proof fn lemma_decryption_sees_noisy_message<const M: usize, const N: usize, const L: usize>(
    a: Matrix<u64, N, M>,
    s: Matrix<u64, M, L>,
    e: Matrix<u64, N, L>,
    p: Matrix<u64, N, L>,
    x: Seq<u64>,
    u: Vector<u64, M>,
    c: Vector<u64, L>,
    m: Vector<u64, L>,
    q: u64,
    l: int,
)
    requires
        q > 0,
        0 <= l < L,
        x.len() == N,
        forall|i: int, k: int|
            0 <= i < N && 0 <= k < L ==> #[trigger] p@[i][k] as int == (int_dot(
                a@[i],
                column(s@, k),
                M as int,
            ) + e@[i][k]) % q as int,
        forall|k: int| 0 <= k < M ==> #[trigger] u@[k] as int == dot_mod_spec(column(a@, k), x, q as int),
        forall|k: int|
            0 <= k < L ==> #[trigger] c@[k] as int == (int_dot(column(p@, k), x, N as int) + m@[k])
                % q as int,
    ensures
        (c@[l] - int_dot(column(s@, l), u@, M as int)) % q as int == (int_dot(
            column(e@, l),
            x,
            N as int,
        ) + m@[l]) % q as int,
{
    let qi = q as int;
    let cp = column(p@, l);
    let cs = column(s@, l);
    let ce = column(e@, l);
    let d = |i: int| isum(|j: int| a@[i][j] * s@[j][l], M as int);
    let f = |i: int, j: int| a@[i][j] * s@[j][l] * x[i];
    // The sum that encryption puts into c.
    lemma_int_dot_as_sum(cp, x, N as int);
    let fp = |i: int| cp[i] * x[i];
    let gp = |i: int| (d(i) + e@[i][l]) * x[i];
    assert forall|i: int| 0 <= i < N implies #[trigger] fp(i) % qi == gp(i) % qi by {
        lemma_int_dot_as_sum(a@[i], cs, M as int);
        lemma_isum_congr(|j: int| a@[i][j] * cs[j], |j: int| a@[i][j] * s@[j][l], M as int);
        assert(cp[i] == p@[i][l]);
        lemma_mul_mod_noop_left(d(i) + e@[i][l], x[i] as int, qi);
    }
    lemma_isum_mod_congr(fp, gp, N as int, qi);
    let dx = |i: int| d(i) * x[i];
    let ex = |i: int| e@[i][l] * x[i];
    lemma_isum_add(dx, ex, N as int);
    assert forall|i: int| 0 <= i < N implies #[trigger] gp(i) == (|i: int| dx(i) + ex(i))(i) by {
        lemma_mul_is_distributive_add(x[i] as int, d(i), e@[i][l] as int);
        lemma_mul_is_commutative(x[i] as int, d(i) + e@[i][l]);
        lemma_mul_is_commutative(x[i] as int, d(i));
        lemma_mul_is_commutative(x[i] as int, e@[i][l] as int);
    }
    lemma_isum_congr(gp, |i: int| dx(i) + ex(i), N as int);
    lemma_int_dot_as_sum(ce, x, N as int);
    lemma_isum_congr(ex, |j: int| ce[j] * x[j], N as int);
    // Each d(i)·x[i] is a sum over j.
    let dxs = |i: int| isum(|j: int| f(i, j), M as int);
    assert forall|i: int| 0 <= i < N implies #[trigger] dx(i) == dxs(i) by {
        let g = |j: int| a@[i][j] * s@[j][l];
        lemma_isum_scale(x[i] as int, g, M as int);
        lemma_mul_is_commutative(x[i] as int, d(i));
        let g2 = |j: int| x[i] * g(j);
        assert forall|j: int| 0 <= j < M implies #[trigger] g2(j) == (|j: int| f(i, j))(j) by {
            lemma_mul_is_commutative(x[i] as int, g(j));
        }
        lemma_isum_congr(g2, |j: int| f(i, j), M as int);
    }
    lemma_isum_congr(dx, dxs, N as int);
    // The sum that decryption subtracts.
    lemma_int_dot_as_sum(cs, u@, M as int);
    let su = |k: int| cs[k] * u@[k];
    let su2 = |k: int| isum(|i: int| f(i, k), N as int);
    assert forall|k: int| 0 <= k < M implies #[trigger] su(k) % qi == su2(k) % qi by {
        let ca = column(a@, k);
        lemma_int_dot_as_sum(ca, x, N as int);
        let h = |i: int| ca[i] * x[i];
        let uk = isum(h, N as int);
        lemma_mul_mod_noop_left(u@[k] as int, cs[k] as int, qi);
        lemma_mul_mod_noop_left(uk, cs[k] as int, qi);
        lemma_mod_twice(uk, qi);
        lemma_mul_is_commutative(u@[k] as int, cs[k] as int);
        lemma_mul_is_commutative(uk, cs[k] as int);
        lemma_isum_scale(cs[k] as int, h, N as int);
        let h2 = |i: int| cs[k] * h(i);
        assert forall|i: int| 0 <= i < N implies #[trigger] h2(i) == (|i: int| f(i, k))(i) by {
            lemma_mul_is_associative(cs[k] as int, a@[i][k] as int, x[i] as int);
            lemma_mul_is_commutative(cs[k] as int, a@[i][k] as int);
            lemma_mul_is_associative(a@[i][k] as int, s@[k][l] as int, x[i] as int);
        }
        lemma_isum_congr(h2, |i: int| f(i, k), N as int);
    }
    lemma_isum_mod_congr(su, su2, M as int, qi);
    lemma_isum_swap(f, N as int, M as int);
    // Put the pieces together modulo q.
    let xs = isum(fp, N as int);
    let big = isum(dxs, N as int);
    let noise = int_dot(ce, x, N as int);
    let y = int_dot(cs, u@, M as int);
    lemma_mod_twice(xs + m@[l], qi);
    lemma_add_cong(xs, big + noise, m@[l] as int, m@[l] as int, qi);
    lemma_sub_cong(c@[l] as int, big + noise + m@[l], y, big, qi);
}

/// When `t = q`, decoding is exact: a residue `v < q` decodes to itself.
pub proof fn lemma_decode_exact(v: int, q: int)
    requires
        0 <= v < q,
    ensures
        f_inv_spec(v, q, q) == v,
{
    assert(2 * (q * v) + q == v * (2 * q) + q) by (nonlinear_arith);
    lemma_fundamental_div_mod_converse(2 * (q * v) + q, 2 * q, v, q);
    assert(round_div(q * v, q) == v);
    lemma_small_mod(v as nat, q as nat);
}

/// Decryption gives back the plaintext when `t = q` and the noise term
/// `Eᵀ·x` vanishes modulo `q`.
pub proof fn lemma_round_trip_without_noise<const M: usize, const N: usize, const L: usize>(
    a: Matrix<u64, N, M>,
    s: Matrix<u64, M, L>,
    e: Matrix<u64, N, L>,
    p: Matrix<u64, N, L>,
    x: Seq<u64>,
    u: Vector<u64, M>,
    c: Vector<u64, L>,
    m: Vector<u64, L>,
    q: u64,
)
    requires
        q > 1,
        x.len() == N,
        forall|k: int| 0 <= k < L ==> #[trigger] m@[k] < q,
        forall|k: int| 0 <= k < L ==> #[trigger] int_dot(column(e@, k), x, N as int) % q as int == 0,
        forall|i: int, k: int|
            0 <= i < N && 0 <= k < L ==> #[trigger] p@[i][k] as int == (int_dot(
                a@[i],
                column(s@, k),
                M as int,
            ) + e@[i][k]) % q as int,
        forall|k: int| 0 <= k < M ==> #[trigger] u@[k] as int == dot_mod_spec(column(a@, k), x, q as int),
        forall|k: int|
            0 <= k < L ==> #[trigger] c@[k] as int == (int_dot(column(p@, k), x, N as int) + m@[k])
                % q as int,
    ensures
        forall|l: int|
            0 <= l < L ==> f_inv_spec(
                (c@[l] - int_dot(column(s@, l), u@, M as int)) % q as int,
                q as int,
                q as int,
            ) == #[trigger] m@[l],
{
    assert forall|l: int| 0 <= l < L implies f_inv_spec(
        (c@[l] - int_dot(column(s@, l), u@, M as int)) % q as int,
        q as int,
        q as int,
    ) == #[trigger] m@[l] by {
        lemma_decryption_sees_noisy_message(a, s, e, p, x, u, c, m, q, l);
        let noise = int_dot(column(e@, l), x, N as int);
        lemma_small_mod(0, q as nat);
        lemma_add_cong(noise, 0, m@[l] as int, m@[l] as int, q as int);
        lemma_small_mod(m@[l] as nat, q as nat);
        lemma_decode_exact(m@[l] as int, q as int);
    }
}

} // verus!
