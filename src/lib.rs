//! Fixed-size vectors and matrices over a ring, and a Regev-style
//! Learning-With-Errors cryptosystem built on them.
pub mod correctness;
pub mod laws;
pub mod lwe;
pub mod matrix;
pub mod rounding;
pub mod sums;
pub mod traits;
pub mod vector;
