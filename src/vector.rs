//! Fixed-length vectors over a ring.
use crate::sums::{dot_prefix, dot_spec};
use crate::traits::RingElement;
use vstd::prelude::*;

verus! {

/// A vector of `N` elements.
#[derive(Debug, Clone, Copy, PartialEq)]
pub struct Vector<T, const N: usize>(pub [T; N]);

impl<T, const N: usize> View for Vector<T, N> {
    type V = Seq<T>;

    open spec fn view(&self) -> Seq<T> {
        self.0@
    }
}

/// Elementwise sum.
pub open spec fn vec_add<T: RingElement>(a: Seq<T>, b: Seq<T>) -> Seq<T> {
    Seq::new(a.len(), |i: int| T::add_spec(a[i], b[i]))
}

/// Elementwise difference.
pub open spec fn vec_sub<T: RingElement>(a: Seq<T>, b: Seq<T>) -> Seq<T> {
    Seq::new(a.len(), |i: int| T::sub_spec(a[i], b[i]))
}

/// Every element multiplied by `s` on the right.
pub open spec fn vec_scale<T: RingElement>(a: Seq<T>, s: T) -> Seq<T> {
    Seq::new(a.len(), |i: int| T::mul_spec(a[i], s))
}

/// Pairs up the elements of two arrays of one length.
pub trait Zip<T, const N: usize>: Sized {
    spec fn elems(&self) -> Seq<T>;

    fn zip(self, rhs: [T; N]) -> (r: [(T, T); N])
        ensures
            forall|i: int| 0 <= i < N ==> #[trigger] r@[i] == (self.elems()[i], rhs@[i]),
    ;
}

impl<T: RingElement, const N: usize> Zip<T, N> for [T; N] {
    open spec fn elems(&self) -> Seq<T> {
        self@
    }

    fn zip(self, rhs: [T; N]) -> (r: [(T, T); N]) {
        let z = T::zero();
        let mut ret: [(T, T); N] = [(z, z); N];
        let mut i: usize = 0;
        while i < N
            invariant
                0 <= i <= N,
                forall|j: int| 0 <= j < i ==> #[trigger] ret@[j] == (self@[j], rhs@[j]),
            decreases N - i,
        {
            ret[i] = (self[i], rhs[i]);
            i = i + 1;
        }
        ret
    }
}

impl<T: RingElement, const N: usize> Vector<T, N> {
    /// Elementwise sum `self[i] + rhs[i]`.
    pub fn add(self, rhs: Self) -> (r: Self)
        ensures
            r@ == vec_add(self@, rhs@),
    {
        let pairs = self.0.zip(rhs.0);
        let mut out = self.0;
        let mut i: usize = 0;
        while i < N
            invariant
                0 <= i <= N,
                forall|j: int| 0 <= j < N ==> #[trigger] pairs@[j] == (self@[j], rhs@[j]),
                forall|j: int| 0 <= j < i ==> #[trigger] out@[j] == T::add_spec(self@[j], rhs@[j]),
            decreases N - i,
        {
            let (l, r) = pairs[i];
            out[i] = l.ring_add(r);
            i = i + 1;
        }
        let r = Vector(out);
        assert(r@ =~= vec_add(self@, rhs@));
        r
    }

    /// Elementwise difference `self[i] - rhs[i]`.
    pub fn sub(self, rhs: Self) -> (r: Self)
        ensures
            r@ == vec_sub(self@, rhs@),
    {
        let pairs = self.0.zip(rhs.0);
        let mut out = self.0;
        let mut i: usize = 0;
        while i < N
            invariant
                0 <= i <= N,
                forall|j: int| 0 <= j < N ==> #[trigger] pairs@[j] == (self@[j], rhs@[j]),
                forall|j: int| 0 <= j < i ==> #[trigger] out@[j] == T::sub_spec(self@[j], rhs@[j]),
            decreases N - i,
        {
            let (l, r) = pairs[i];
            out[i] = l.ring_sub(r);
            i = i + 1;
        }
        let r = Vector(out);
        assert(r@ =~= vec_sub(self@, rhs@));
        r
    }

    /// Scalar multiplication `self[i] · s`.
    pub fn mul(self, s: T) -> (r: Self)
        ensures
            r@ == vec_scale(self@, s),
    {
        let mut out = self.0;
        let mut i: usize = 0;
        while i < N
            invariant
                0 <= i <= N,
                forall|j: int| 0 <= j < i ==> #[trigger] out@[j] == T::mul_spec(self@[j], s),
            decreases N - i,
        {
            out[i] = self.0[i].ring_mul(s);
            i = i + 1;
        }
        let r = Vector(out);
        assert(r@ =~= vec_scale(self@, s));
        r
    }

    /// Dot product, accumulated from zero in ascending index order.
    pub fn dot(self, rhs: Vector<T, N>) -> (r: T)
        ensures
            r == dot_spec(self@, rhs@),
    {
        let mut acc = T::zero();
        let mut i: usize = 0;
        while i < N
            invariant
                0 <= i <= N,
                acc == dot_prefix(self@, rhs@, i as int),
            decreases N - i,
        {
            acc = acc.ring_add(self.0[i].ring_mul(rhs.0[i]));
            i = i + 1;
        }
        acc
    }
}

impl<const N: usize> Vector<isize, N> {
    /// Each element converted with `as usize`.
    pub fn to_usize(self) -> (r: Vector<usize, N>)
        ensures
            forall|i: int| 0 <= i < N ==> #[trigger] r@[i] == #[verifier::truncate] (self@[i] as usize),
    {
        let mut out: [usize; N] = [0usize; N];
        let mut i: usize = 0;
        while i < N
            invariant
                0 <= i <= N,
                forall|j: int| 0 <= j < i ==> #[trigger] out@[j] == #[verifier::truncate] (self@[j] as usize),
            decreases N - i,
        {
            out[i] = self.0[i] as usize;
            i = i + 1;
        }
        Vector(out)
    }
}

impl<const N: usize> Vector<usize, N> {
    /// Each element converted with `as isize`.
    pub fn to_isize(self) -> (r: Vector<isize, N>)
        ensures
            forall|i: int| 0 <= i < N ==> #[trigger] r@[i] == #[verifier::truncate] (self@[i] as isize),
    {
        let mut out: [isize; N] = [0isize; N];
        let mut i: usize = 0;
        while i < N
            invariant
                0 <= i <= N,
                forall|j: int| 0 <= j < i ==> #[trigger] out@[j] == #[verifier::truncate] (self@[j] as isize),
            decreases N - i,
        {
            out[i] = self.0[i] as isize;
            i = i + 1;
        }
        Vector(out)
    }
}

} // verus!
