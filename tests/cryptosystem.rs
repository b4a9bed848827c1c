use lwe::lwe::{
    decrypt, encrypt, f_inv, generate_keys, lift, pack_message, rand_mod_matrix,
    random_perturbation_vector, reduce_mod_matrix, reduce_mod_vector, LweError,
};
use lwe::matrix::Matrix;
use lwe::vector::Vector;
use rand_distr::{Distribution, Normal};

fn rounded_gaussian<const N: usize, const L: usize>(q: u64, alpha: f64) -> Matrix<i64, N, L> {
    let sigma = alpha * q as f64 / f64::sqrt(2.0 * std::f64::consts::PI);
    let normal = Normal::new(0.0, sigma).unwrap();
    let mut rng = rand::thread_rng();
    let mut out = [[0i64; L]; N];
    for row in out.iter_mut() {
        for x in row.iter_mut() {
            *x = normal.sample(&mut rng).round() as i64;
        }
    }
    Matrix(out)
}

#[test]
fn it_works() {
    const M: usize = 20;
    const N: usize = M + 1;
    const L: usize = N + 1;
    const Q: u64 = 200;
    const T: u64 = 200;

    let text: Vec<char> = "this is a message".chars().collect();
    let message: Vector<u64, L> = pack_message(&text);

    let keys = generate_keys::<M, N, L>(Q, rounded_gaussian::<N, L>(Q, 0.00088)).unwrap();
    let perturb: Vector<i64, N> = random_perturbation_vector(1).unwrap();
    let ct = encrypt(keys.public_a, keys.public_p, message, perturb, Q, T).unwrap();
    let decrypted = decrypt(ct.c, keys.secret, ct.u, Q, T).unwrap();
    assert_eq!(message, decrypted);
}

#[test]
fn rand() {
    let rand: Matrix<u64, 6, 6> = rand_mod_matrix(18).unwrap();
    println!("{rand:?}");
    assert!(rand.0.iter().all(|row| row.iter().all(|&x| x < 18)));
    assert!(rand.0.iter().any(|row| row.iter().any(|&x| x != 0)));
}

#[test]
fn rand_mod_matrix_rejects_small_modulus() {
    assert_eq!(rand_mod_matrix::<2, 2>(1), Err(LweError::ModulusTooSmall));
    assert_eq!(rand_mod_matrix::<2, 2>(0), Err(LweError::ModulusTooSmall));
}

#[test]
fn perturbation_within_bound_and_independent() {
    let x: Vector<i64, 64> = random_perturbation_vector(3).unwrap();
    assert!(x.0.iter().all(|&v| (-3..=3).contains(&v)));
    assert!(x.0.iter().any(|&v| v != x.0[0]));
    let z: Vector<i64, 4> = random_perturbation_vector(0).unwrap();
    assert_eq!(z, Vector([0; 4]));
    assert_eq!(
        random_perturbation_vector::<4>(-1),
        Err(LweError::NegativeBound)
    );
}

#[test]
fn reduction_gives_nonnegative_residues() {
    let v: Vector<i64, 4> = Vector([-1, -200, 5, -401]);
    assert_eq!(reduce_mod_vector(v, 200), Vector([199, 0, 5, 199]));
    let m: Matrix<i64, 1, 2> = Matrix([[-3, 7]]);
    assert_eq!(reduce_mod_matrix(m, 5), Ok(Matrix([[2, 2]])));
    assert_eq!(reduce_mod_matrix(m, 1), Err(LweError::ModulusTooSmall));
}

#[test]
fn f_inv_rounds_half_away_from_zero() {
    let v: Vector<u64, 4> = Vector([49, 50, 150, 199]);
    assert_eq!(f_inv(v, 2, 200), Ok(Vector([0, 1, 0, 0])));
    let w: Vector<u64, 3> = Vector([0, 7, 199]);
    assert_eq!(f_inv(w, 200, 200), Ok(Vector([0, 7, 199])));
    assert_eq!(f_inv(w, 2, 1), Err(LweError::ModulusTooSmall));
    assert_eq!(f_inv(w, 1, 200), Err(LweError::PlaintextModulusTooSmall));
}

#[test]
fn lift_and_decode_round_trip() {
    let w: Vector<u64, 4> = Vector([0, 1, 2, 3]);
    let lifted = lift(w, 4, 10).unwrap();
    assert_eq!(lifted, Vector([0, 3, 5, 8]));
    assert_eq!(f_inv(lifted, 4, 10), Ok(w));
    let v: Vector<u64, 3> = Vector([13, 77, 150]);
    let once = f_inv(v, 7, 200).unwrap();
    let again = f_inv(lift(once, 7, 200).unwrap(), 7, 200).unwrap();
    assert_eq!(once, again);
    assert_eq!(lift(w, 3, 10), Err(LweError::PlaintextOutOfRange));
}

#[test]
fn encrypt_decrypt_without_noise() {
    let q: u64 = 97;
    let t: u64 = 97;
    let zero: Matrix<i64, 3, 2> = Matrix([[0; 2]; 3]);
    let keys = generate_keys::<2, 3, 2>(q, zero).unwrap();
    let m: Vector<u64, 2> = Vector([42, 96]);
    let x: Vector<i64, 3> = Vector([1, -1, 1]);
    let ct = encrypt(keys.public_a, keys.public_p, m, x, q, t).unwrap();
    assert_eq!(decrypt(ct.c, keys.secret, ct.u, q, t), Ok(m));
}

#[test]
fn encrypt_known_values() {
    let a: Matrix<u64, 2, 1> = Matrix([[3], [4]]);
    let p: Matrix<u64, 2, 1> = Matrix([[5], [6]]);
    let m: Vector<u64, 1> = Vector([2]);
    let x: Vector<i64, 2> = Vector([1, -1]);
    let ct = encrypt(a, p, m, x, 10, 10).unwrap();
    assert_eq!(ct.u, Vector([9]));
    assert_eq!(ct.c, Vector([1]));
    assert_eq!(decrypt(ct.c, Matrix([[1]]), ct.u, 10, 10), Ok(Vector([2])));
}

#[test]
fn encrypt_rejects_bad_parameters() {
    let a: Matrix<u64, 2, 1> = Matrix([[3], [4]]);
    let p: Matrix<u64, 2, 1> = Matrix([[5], [6]]);
    let x: Vector<i64, 2> = Vector([1, -1]);
    let err = |r: Result<lwe::lwe::Ciphertext<1, 1>, LweError>| r.err();
    assert_eq!(err(encrypt(a, p, Vector([2]), x, 1, 10)), Some(LweError::ModulusTooSmall));
    assert_eq!(
        err(encrypt(a, p, Vector([2]), x, 10, 1)),
        Some(LweError::PlaintextModulusTooSmall)
    );
    assert_eq!(
        err(encrypt(a, p, Vector([10]), x, 10, 10)),
        Some(LweError::PlaintextOutOfRange)
    );
    assert_eq!(
        decrypt(Vector([1]), Matrix([[1]]), Vector([9]), 0, 10),
        Err(LweError::ModulusTooSmall)
    );
    assert_eq!(
        decrypt(Vector([1]), Matrix([[1]]), Vector([9]), 10, 0),
        Err(LweError::PlaintextModulusTooSmall)
    );
}

#[test]
fn keys_have_expected_shape_and_range() {
    let e: Matrix<i64, 3, 2> = Matrix([[1, -1], [0, 0], [2, 0]]);
    let keys = generate_keys::<2, 3, 2>(50, e).unwrap();
    assert!(keys.secret.0.iter().flatten().all(|&v| v < 50));
    assert!(keys.public_a.0.iter().flatten().all(|&v| v < 50));
    let prod = keys.public_a.mul(keys.secret);
    for i in 0..3 {
        for l in 0..2 {
            let mut s: u64 = 0;
            for j in 0..2 {
                s += keys.public_a.0[i][j] * keys.secret.0[j][l];
            }
            let expected = ((s as i64 + e.0[i][l]).rem_euclid(50)) as u64;
            assert_eq!(keys.public_p.0[i][l], expected);
            assert_eq!(prod.0[i][l], s);
        }
    }
    assert!(generate_keys::<2, 3, 2>(1, e).is_err());
}

#[test]
fn pack_message_pads_and_truncates() {
    let text: Vec<char> = "hi".chars().collect();
    let v: Vector<u64, 4> = pack_message(&text);
    assert_eq!(v, Vector([104, 105, 0, 0]));
    let long: Vec<char> = "abcdef".chars().collect();
    let w: Vector<u64, 3> = pack_message(&long);
    assert_eq!(w, Vector([97, 98, 99]));
}
