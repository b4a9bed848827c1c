//! Fixed-shape matrices over a ring: `M` rows of `N` columns, row-major.
use crate::sums::dot_spec;
use crate::traits::RingElement;
use crate::vector::{vec_add, vec_scale, vec_sub, Vector};
use vstd::prelude::*;

verus! {

/// A matrix of `M` rows and `N` columns.
#[derive(Debug, Clone, Copy, PartialEq)]
pub struct Matrix<T, const M: usize, const N: usize>(pub [[T; N]; M]);

impl<T, const M: usize, const N: usize> View for Matrix<T, M, N> {
    type V = Seq<Seq<T>>;

    open spec fn view(&self) -> Seq<Seq<T>> {
        Seq::new(M as nat, |i: int| self.0@[i]@)
    }
}

/// Column `c` of the rows `b`.
pub open spec fn column<T>(b: Seq<Seq<T>>, c: int) -> Seq<T> {
    Seq::new(b.len(), |j: int| b[j][c])
}

/// The transpose of the rows `a`, each of length `n`.
pub open spec fn transpose_spec<T>(a: Seq<Seq<T>>, n: nat) -> Seq<Seq<T>> {
    Seq::new(n, |j: int| column(a, j))
}

/// Elementwise sum.
pub open spec fn mat_add<T: RingElement>(a: Seq<Seq<T>>, b: Seq<Seq<T>>) -> Seq<Seq<T>> {
    Seq::new(a.len(), |i: int| vec_add(a[i], b[i]))
}

/// Elementwise difference.
pub open spec fn mat_sub<T: RingElement>(a: Seq<Seq<T>>, b: Seq<Seq<T>>) -> Seq<Seq<T>> {
    Seq::new(a.len(), |i: int| vec_sub(a[i], b[i]))
}

/// Every element multiplied by `s` on the right.
pub open spec fn mat_scale<T: RingElement>(a: Seq<Seq<T>>, s: T) -> Seq<Seq<T>> {
    Seq::new(a.len(), |i: int| vec_scale(a[i], s))
}

/// The product of the rows `a` with the rows `b`, which have `k` columns:
/// entry `(i, c)` is the dot product of row `i` of `a` with column `c` of `b`.
pub open spec fn mat_mul<T: RingElement>(a: Seq<Seq<T>>, b: Seq<Seq<T>>, k: nat) -> Seq<Seq<T>> {
    Seq::new(a.len(), |i: int| Seq::new(k, |c: int| dot_spec(a[i], column(b, c))))
}

/// The product of the rows `a` with the vector `v`.
pub open spec fn mat_vec<T: RingElement>(a: Seq<Seq<T>>, v: Seq<T>) -> Seq<T> {
    Seq::new(a.len(), |i: int| dot_spec(a[i], v))
}

/// The `n`×`n` identity: one on the diagonal, zero elsewhere.
pub open spec fn identity_spec<T: RingElement>(n: nat) -> Seq<Seq<T>> {
    Seq::new(
        n,
        |i: int|
            Seq::new(
                n,
                |j: int|
                    if i == j {
                        T::one_spec()
                    } else {
                        T::zero_spec()
                    },
            ),
    )
}

impl<T: RingElement, const M: usize> Matrix<T, M, M> {
    /// The identity matrix.
    pub fn identity() -> (r: Self)
        ensures
            r@ == identity_spec::<T>(M as nat),
    {
        let z = T::zero();
        let mut out: [[T; M]; M] = [[z; M]; M];
        let mut i: usize = 0;
        while i < M
            invariant
                0 <= i <= M,
                z == T::zero_spec(),
                forall|k: int| 0 <= k < i ==> #[trigger] out@[k]@ == identity_spec::<T>(M as nat)[k],
            decreases M - i,
        {
            let mut row: [T; M] = [z; M];
            let mut j: usize = 0;
            while j < M
                invariant
                    0 <= j <= M,
                    0 <= i < M,
                    z == T::zero_spec(),
                    forall|k: int| 0 <= k < j ==> #[trigger] row@[k] == identity_spec::<T>(
                        M as nat,
                    )[i as int][k],
                decreases M - j,
            {
                row[j] = if j == i {
                    T::one()
                } else {
                    z
                };
                j = j + 1;
            }
            assert(row@ =~= identity_spec::<T>(M as nat)[i as int]);
            out[i] = row;
            i = i + 1;
        }
        let r = Matrix(out);
        assert(r@ =~= identity_spec::<T>(M as nat));
        r
    }
}

impl<T: RingElement, const M: usize, const N: usize> Matrix<T, M, N> {
    /// Column `c`, as a vector of `M` elements.
    pub fn column(&self, c: usize) -> (r: Vector<T, M>)
        requires
            c < N,
        ensures
            r@ == column(self@, c as int),
    {
        let mut out: [T; M] = [T::zero(); M];
        let mut i: usize = 0;
        while i < M
            invariant
                0 <= i <= M,
                c < N,
                forall|j: int| 0 <= j < i ==> #[trigger] out@[j] == self@[j][c as int],
            decreases M - i,
        {
            out[i] = self.0[i][c];
            i = i + 1;
        }
        let r = Vector(out);
        assert(r@ =~= column(self@, c as int));
        r
    }

    /// The `N`×`M` matrix with `r[j][i] == self[i][j]`.
    pub fn transpose(self) -> (r: Matrix<T, N, M>)
        ensures
            r@ == transpose_spec(self@, N as nat),
    {
        let mut out: [[T; M]; N] = [[T::zero(); M]; N];
        let mut j: usize = 0;
        while j < N
            invariant
                0 <= j <= N,
                forall|k: int| 0 <= k < j ==> #[trigger] out@[k]@ == column(self@, k),
            decreases N - j,
        {
            out[j] = self.column(j).0;
            j = j + 1;
        }
        let r = Matrix(out);
        assert(r@ =~= transpose_spec(self@, N as nat));
        r
    }

    /// Elementwise sum.
    pub fn add(self, rhs: Self) -> (r: Self)
        ensures
            r@ == mat_add(self@, rhs@),
    {
        let mut out = self.0;
        let mut i: usize = 0;
        while i < M
            invariant
                0 <= i <= M,
                forall|k: int| 0 <= k < i ==> #[trigger] out@[k]@ == vec_add(self@[k], rhs@[k]),
            decreases M - i,
        {
            out[i] = Vector(self.0[i]).add(Vector(rhs.0[i])).0;
            i = i + 1;
        }
        let r = Matrix(out);
        assert(r@ =~= mat_add(self@, rhs@));
        r
    }

    /// Elementwise difference.
    pub fn sub(self, rhs: Self) -> (r: Self)
        ensures
            r@ == mat_sub(self@, rhs@),
    {
        let mut out = self.0;
        let mut i: usize = 0;
        while i < M
            invariant
                0 <= i <= M,
                forall|k: int| 0 <= k < i ==> #[trigger] out@[k]@ == vec_sub(self@[k], rhs@[k]),
            decreases M - i,
        {
            out[i] = Vector(self.0[i]).sub(Vector(rhs.0[i])).0;
            i = i + 1;
        }
        let r = Matrix(out);
        assert(r@ =~= mat_sub(self@, rhs@));
        r
    }

    /// Scalar multiplication, each element times `s`.
    pub fn mul_scalar(self, s: T) -> (r: Self)
        ensures
            r@ == mat_scale(self@, s),
    {
        let mut out = self.0;
        let mut i: usize = 0;
        while i < M
            invariant
                0 <= i <= M,
                forall|k: int| 0 <= k < i ==> #[trigger] out@[k]@ == vec_scale(self@[k], s),
            decreases M - i,
        {
            out[i] = Vector(self.0[i]).mul(s).0;
            i = i + 1;
        }
        let r = Matrix(out);
        assert(r@ =~= mat_scale(self@, s));
        r
    }

    /// The product with an `N`×`K` matrix: an `M`×`K` matrix whose entry
    /// `(i, c)` is `Σ_j self[i][j]·rhs[j][c]`, accumulated in ascending `j`.
    pub fn mul<const K: usize>(self, rhs: Matrix<T, N, K>) -> (r: Matrix<T, M, K>)
        ensures
            r@ == mat_mul(self@, rhs@, K as nat),
    {
        let mut cols: [Vector<T, N>; K] = [Vector([T::zero(); N]); K];
        let mut c: usize = 0;
        while c < K
            invariant
                0 <= c <= K,
                forall|k: int| 0 <= k < c ==> #[trigger] cols@[k]@ == column(rhs@, k),
            decreases K - c,
        {
            cols[c] = rhs.column(c);
            c = c + 1;
        }
        let mut prod: [[T; K]; M] = [[T::zero(); K]; M];
        let mut i: usize = 0;
        while i < M
            invariant
                0 <= i <= M,
                forall|k: int| 0 <= k < K ==> #[trigger] cols@[k]@ == column(rhs@, k),
                forall|k: int|
                    0 <= k < i ==> #[trigger] prod@[k]@ == Seq::new(
                        K as nat,
                        |c: int| dot_spec(self@[k], column(rhs@, c)),
                    ),
            decreases M - i,
        {
            let row = Vector(self.0[i]);
            let mut out: [T; K] = [T::zero(); K];
            let mut c: usize = 0;
            while c < K
                invariant
                    0 <= c <= K,
                    0 <= i < M,
                    row@ == self@[i as int],
                    forall|k: int| 0 <= k < K ==> #[trigger] cols@[k]@ == column(rhs@, k),
                    forall|k: int|
                        0 <= k < c ==> #[trigger] out@[k] == dot_spec(
                            self@[i as int],
                            column(rhs@, k),
                        ),
                decreases K - c,
            {
                out[c] = row.dot(cols[c]);
                c = c + 1;
            }
            assert(out@ =~= Seq::new(K as nat, |c: int| dot_spec(self@[i as int], column(rhs@, c))));
            prod[i] = out;
            i = i + 1;
        }
        let r = Matrix(prod);
        assert(r@ =~= mat_mul(self@, rhs@, K as nat));
        r
    }

    /// The product with an `N`-vector: row-by-row dot products.
    pub fn mul_vector(self, v: Vector<T, N>) -> (r: Vector<T, M>)
        ensures
            r@ == mat_vec(self@, v@),
    {
        let mut out: [T; M] = [T::zero(); M];
        let mut i: usize = 0;
        while i < M
            invariant
                0 <= i <= M,
                forall|k: int| 0 <= k < i ==> #[trigger] out@[k] == dot_spec(self@[k], v@),
            decreases M - i,
        {
            out[i] = Vector(self.0[i]).dot(v);
            i = i + 1;
        }
        let r = Vector(out);
        assert(r@ =~= mat_vec(self@, v@));
        r
    }
}

impl<const M: usize, const N: usize> Matrix<isize, M, N> {
    /// Each element converted with `as usize`.
    pub fn to_usize(self) -> (r: Matrix<usize, M, N>)
        ensures
            forall|i: int, j: int|
                0 <= i < M && 0 <= j < N ==> #[trigger] r@[i][j] == #[verifier::truncate] (self@[i][j] as usize),
    {
        let mut out: [[usize; N]; M] = [[0usize; N]; M];
        let mut i: usize = 0;
        while i < M
            invariant
                0 <= i <= M,
                forall|k: int, j: int|
                    0 <= k < i && 0 <= j < N ==> #[trigger] out@[k]@[j] == #[verifier::truncate] (self@[k][j] as usize),
            decreases M - i,
        {
            let row = Vector(self.0[i]).to_usize();
            out[i] = row.0;
            assert(forall|j: int| 0 <= j < N ==> out@[i as int]@[j] == #[trigger] row@[j]);
            i = i + 1;
        }
        Matrix(out)
    }
}

impl<const M: usize, const N: usize> Matrix<usize, M, N> {
    /// Each element converted with `as isize`.
    pub fn to_isize(self) -> (r: Matrix<isize, M, N>)
        ensures
            forall|i: int, j: int|
                0 <= i < M && 0 <= j < N ==> #[trigger] r@[i][j] == #[verifier::truncate] (self@[i][j] as isize),
    {
        let mut out: [[isize; N]; M] = [[0isize; N]; M];
        let mut i: usize = 0;
        while i < M
            invariant
                0 <= i <= M,
                forall|k: int, j: int|
                    0 <= k < i && 0 <= j < N ==> #[trigger] out@[k]@[j] == #[verifier::truncate] (self@[k][j] as isize),
            decreases M - i,
        {
            let row = Vector(self.0[i]).to_isize();
            out[i] = row.0;
            assert(forall|j: int| 0 <= j < N ==> out@[i as int]@[j] == #[trigger] row@[j]);
            i = i + 1;
        }
        Matrix(out)
    }
}

} // verus!
