use lwe::matrix::Matrix;
use lwe::vector::{Vector, Zip};

#[test]
fn test_mul() {
    let ident: Matrix<i32, 2, 2> = Matrix([[1, 0], [0, 1]]);

    let mat: Matrix<i32, 2, 2> = Matrix([[5, 6], [7, 8]]);

    assert_eq!(mat, ident.mul(mat));
    assert_eq!(mat, mat.mul(ident));

    // Two rows, three columns
    let twobythree: Matrix<i32, 2, 3> = Matrix([[1, 0, 2], [0, 1, 2]]);

    // Three rows, two columns
    let threebytwo: Matrix<i32, 3, 2> = Matrix([[5, 6], [7, 8], [7, 8]]);
    let two_times_threebytwo: Matrix<i32, 3, 2> = Matrix([[10, 12], [14, 16], [14, 16]]);

    assert_eq!(two_times_threebytwo, threebytwo.mul_scalar(2));

    assert_eq!(
        threebytwo.mul(twobythree),
        Matrix([[5, 6, 22], [7, 8, 30], [7, 8, 30]])
    );
    assert_eq!(twobythree.mul(threebytwo), Matrix([[19, 22], [21, 24]]));
}

#[test]
fn test_const() {
    let one_d: Vector<u64, 1> = Vector([1]);
    let big_d: Vector<u64, 1024> = Vector([7; 1024]);
    let big_d_1: Vector<u64, 1024> = Vector([1; 1024]);

    let type_0 = one_d.0.len();
    let type_1 = big_d_1.0.len();

    let thing = big_d.add(big_d_1);
    let thing0 = big_d.sub(big_d_1);
    assert_eq!(thing, Vector([8; 1024]));
    assert_eq!(thing0, Vector([6; 1024]));
    println!("{type_0:?}");
    println!("{type_1:?}");
}

#[test]
fn identity_constructor_is_neutral() {
    let ident: Matrix<i32, 2, 2> = Matrix::identity();
    assert_eq!(ident, Matrix([[1, 0], [0, 1]]));
    let a: Matrix<i32, 2, 3> = Matrix([[1, -2, 3], [4, 5, -6]]);
    assert_eq!(ident.mul(a), a);
    let ident3: Matrix<i32, 3, 3> = Matrix::identity();
    assert_eq!(a.mul(ident3), a);
}

#[test]
fn transpose_shape_and_involution() {
    let a: Matrix<i32, 2, 3> = Matrix([[1, 2, 3], [4, 5, 6]]);
    let t = a.transpose();
    assert_eq!(t, Matrix([[1, 4], [2, 5], [3, 6]]));
    assert_eq!(t.transpose(), a);
}

#[test]
fn matmul_associative_on_values() {
    let a: Matrix<i32, 2, 3> = Matrix([[1, 2, 3], [4, 5, 6]]);
    let b: Matrix<i32, 3, 2> = Matrix([[7, 8], [9, 10], [11, 12]]);
    let c: Matrix<i32, 2, 2> = Matrix([[1, -1], [2, 3]]);
    assert_eq!(a.mul(b).mul(c), a.mul(b.mul(c)));
    assert_eq!(a.mul(b), Matrix([[58, 64], [139, 154]]));
}

#[test]
fn matmul_distributes_on_values() {
    let a: Matrix<i32, 2, 2> = Matrix([[1, 2], [3, 4]]);
    let b: Matrix<i32, 2, 2> = Matrix([[5, 6], [7, 8]]);
    let c: Matrix<i32, 2, 2> = Matrix([[-1, 0], [2, 9]]);
    assert_eq!(a.mul(b.add(c)), a.mul(b).add(a.mul(c)));
    let v: Vector<i32, 2> = Vector([3, -4]);
    assert_eq!(
        a.add(b).mul_vector(v),
        a.mul_vector(v).add(b.mul_vector(v))
    );
    assert_eq!(a.mul_vector(v), Vector([-5, -7]));
}

#[test]
fn matrix_sub_elementwise() {
    let a: Matrix<i32, 2, 2> = Matrix([[5, 6], [7, 8]]);
    let b: Matrix<i32, 2, 2> = Matrix([[1, 2], [3, 10]]);
    assert_eq!(a.sub(b), Matrix([[4, 4], [4, -2]]));
}

#[test]
fn dot_value_and_symmetry() {
    let a: Vector<u64, 3> = Vector([1, 2, 3]);
    let b: Vector<u64, 3> = Vector([4, 5, 6]);
    assert_eq!(a.dot(b), 32);
    assert_eq!(a.dot(b), b.dot(a));
    let e: Vector<u64, 0> = Vector([]);
    assert_eq!(e.dot(e), 0);
}

#[test]
fn vector_scalar_multiplication() {
    let a: Vector<i32, 3> = Vector([1, -2, 3]);
    assert_eq!(a.mul(3), Vector([3, -6, 9]));
}

#[test]
fn unsigned_arithmetic_wraps() {
    let a: Vector<u64, 2> = Vector([u64::MAX, 0]);
    let b: Vector<u64, 2> = Vector([1, 1]);
    assert_eq!(a.add(b), Vector([0, 1]));
    assert_eq!(b.sub(a), Vector([2, 1]));
    let m: Matrix<i32, 1, 1> = Matrix([[i32::MAX]]);
    assert_eq!(m.mul_scalar(2), Matrix([[-2]]));
}

#[test]
fn integer_conversions() {
    let v: Vector<isize, 2> = Vector([-1, 5]);
    assert_eq!(v.to_usize(), Vector([usize::MAX, 5]));
    let w: Vector<usize, 2> = Vector([usize::MAX, 7]);
    assert_eq!(w.to_isize(), Vector([-1, 7]));
    let m: Matrix<isize, 1, 2> = Matrix([[-2, 3]]);
    assert_eq!(m.to_usize(), Matrix([[usize::MAX - 1, 3]]));
    let n: Matrix<usize, 1, 2> = Matrix([[usize::MAX, 3]]);
    assert_eq!(n.to_isize(), Matrix([[-1, 3]]));
}

#[test]
fn zip_pairs_elements() {
    let a: [i32; 3] = [1, 2, 3];
    assert_eq!(a.zip([4, 5, 6]), [(1, 4), (2, 5), (3, 6)]);
}
