//! Finite sums over a ring, and the facts about them that the matrix laws use.
use crate::traits::RingElement;
use vstd::prelude::*;

verus! {

/// `f(0) + f(1) + ... + f(n - 1)`, accumulated from zero in ascending order.
pub open spec fn sum<T: RingElement>(f: spec_fn(int) -> T, n: int) -> T
    decreases n,
{
    if n <= 0 {
        T::zero_spec()
    } else {
        T::add_spec(sum(f, n - 1), f(n - 1))
    }
}

/// `a[0]·b[0] + ... + a[n-1]·b[n-1]`, accumulated from zero in ascending order.
pub open spec fn dot_prefix<T: RingElement>(a: Seq<T>, b: Seq<T>, n: int) -> T
    decreases n,
{
    if n <= 0 {
        T::zero_spec()
    } else {
        T::add_spec(dot_prefix(a, b, n - 1), T::mul_spec(a[n - 1], b[n - 1]))
    }
}

/// The dot product of two sequences, over the length of the first.
pub open spec fn dot_spec<T: RingElement>(a: Seq<T>, b: Seq<T>) -> T {
    dot_prefix(a, b, a.len() as int)
}

pub proof fn lemma_dot_as_sum<T: RingElement>(a: Seq<T>, b: Seq<T>, n: int)
    ensures
        dot_prefix(a, b, n) == sum(|j: int| T::mul_spec(a[j], b[j]), n),
    decreases n,
{
    if n > 0 {
        lemma_dot_as_sum(a, b, n - 1);
    }
}

pub proof fn lemma_sum_congr<T: RingElement>(f: spec_fn(int) -> T, g: spec_fn(int) -> T, n: int)
    requires
        forall|i: int| 0 <= i < n ==> #[trigger] f(i) == g(i),
    ensures
        sum(f, n) == sum(g, n),
    decreases n,
{
    if n > 0 {
        lemma_sum_congr(f, g, n - 1);
    }
}

pub proof fn lemma_add_swap4<T: RingElement>(a: T, b: T, c: T, d: T)
    ensures
        T::add_spec(T::add_spec(a, b), T::add_spec(c, d)) == T::add_spec(
            T::add_spec(a, c),
            T::add_spec(b, d),
        ),
{
    T::lemma_add_assoc(a, b, T::add_spec(c, d));
    T::lemma_add_assoc(b, c, d);
    T::lemma_add_comm(b, c);
    T::lemma_add_assoc(c, b, d);
    T::lemma_add_assoc(a, c, T::add_spec(b, d));
}

pub proof fn lemma_sum_add<T: RingElement>(f: spec_fn(int) -> T, g: spec_fn(int) -> T, n: int)
    ensures
        sum(|i: int| T::add_spec(f(i), g(i)), n) == T::add_spec(sum(f, n), sum(g, n)),
    decreases n,
{
    if n <= 0 {
        T::lemma_add_zero(T::zero_spec());
    } else {
        lemma_sum_add(f, g, n - 1);
        lemma_add_swap4(sum(f, n - 1), sum(g, n - 1), f(n - 1), g(n - 1));
    }
}

pub proof fn lemma_mul_zero_right<T: RingElement>(a: T)
    ensures
        T::mul_spec(a, T::zero_spec()) == T::zero_spec(),
{
    T::lemma_mul_comm(a, T::zero_spec());
    T::lemma_mul_zero(a);
}

pub proof fn lemma_sum_scale<T: RingElement>(c: T, f: spec_fn(int) -> T, n: int)
    ensures
        T::mul_spec(c, sum(f, n)) == sum(|i: int| T::mul_spec(c, f(i)), n),
    decreases n,
{
    if n <= 0 {
        lemma_mul_zero_right(c);
    } else {
        lemma_sum_scale(c, f, n - 1);
        T::lemma_distrib(c, sum(f, n - 1), f(n - 1));
    }
}

pub proof fn lemma_sum_scale_right<T: RingElement>(c: T, f: spec_fn(int) -> T, n: int)
    ensures
        T::mul_spec(sum(f, n), c) == sum(|i: int| T::mul_spec(f(i), c), n),
{
    lemma_sum_scale(c, f, n);
    T::lemma_mul_comm(sum(f, n), c);
    let g1 = |i: int| T::mul_spec(c, f(i));
    let g2 = |i: int| T::mul_spec(f(i), c);
    assert forall|i: int| 0 <= i < n implies #[trigger] g1(i) == g2(i) by {
        T::lemma_mul_comm(c, f(i));
    }
    lemma_sum_congr(g1, g2, n);
}

pub proof fn lemma_sum_swap<T: RingElement>(f: spec_fn(int, int) -> T, n: int, m: int)
    ensures
        sum(|i: int| sum(|j: int| f(i, j), m), n) == sum(|j: int| sum(|i: int| f(i, j), n), m),
    decreases n,
{
    if n <= 0 {
        let g1 = |j: int| sum(|i: int| f(i, j), n);
        let g2 = |j: int| T::zero_spec();
        assert forall|j: int| 0 <= j < m implies #[trigger] g1(j) == g2(j) by {}
        lemma_sum_congr(g1, g2, m);
        lemma_sum_zero::<T>(m);
    } else {
        lemma_sum_swap(f, n - 1, m);
        let g = |j: int| sum(|i: int| f(i, j), n - 1);
        let h = |j: int| f(n - 1, j);
        lemma_sum_add(g, h, m);
        let g1 = |j: int| T::add_spec(g(j), h(j));
        let g2 = |j: int| sum(|i: int| f(i, j), n);
        assert forall|j: int| 0 <= j < m implies #[trigger] g1(j) == g2(j) by {}
        lemma_sum_congr(g1, g2, m);
    }
}

pub proof fn lemma_sum_zero<T: RingElement>(n: int)
    ensures
        sum(|i: int| T::zero_spec(), n) == T::zero_spec(),
    decreases n,
{
    if n > 0 {
        lemma_sum_zero::<T>(n - 1);
        T::lemma_add_zero(T::zero_spec());
    }
}

/// A sum whose terms vanish everywhere but at `k` is the term at `k`.
pub proof fn lemma_sum_single<T: RingElement>(f: spec_fn(int) -> T, k: int, n: int)
    requires
        forall|i: int| 0 <= i < n && i != k ==> #[trigger] f(i) == T::zero_spec(),
    ensures
        sum(f, n) == if 0 <= k < n {
            f(k)
        } else {
            T::zero_spec()
        },
    decreases n,
{
    if n > 0 {
        lemma_sum_single(f, k, n - 1);
        if k == n - 1 {
            T::lemma_add_zero(f(k));
        } else {
            T::lemma_add_comm(sum(f, n - 1), T::zero_spec());
            T::lemma_add_zero(sum(f, n - 1));
        }
    }
}

} // verus!
