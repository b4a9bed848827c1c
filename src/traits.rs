//! The algebraic capability asked of matrix and vector elements.
use vstd::arithmetic::div_mod::{lemma_add_mod_noop, lemma_mul_mod_noop_left, lemma_small_mod};
use vstd::arithmetic::mul::{lemma_mul_is_associative, lemma_mul_is_commutative, lemma_mul_is_distributive_add};
use vstd::prelude::*;
use vstd::wrapping::i32_specs::signed_crop as crop_i32;

verus! {

/// A commutative ring with unit. The spec functions give its operations;
/// the exec functions compute them; the proof functions are the ring laws,
/// which every implementation proves.
pub trait RingElement: Copy + Sized {
    spec fn zero_spec() -> Self;

    spec fn one_spec() -> Self;

    spec fn add_spec(a: Self, b: Self) -> Self;

    spec fn sub_spec(a: Self, b: Self) -> Self;

    spec fn mul_spec(a: Self, b: Self) -> Self;

    /// The additive identity, which seeds every accumulator.
    fn zero() -> (r: Self)
        ensures
            r == Self::zero_spec(),
    ;

    /// The multiplicative identity.
    fn one() -> (r: Self)
        ensures
            r == Self::one_spec(),
    ;

    fn ring_add(self, rhs: Self) -> (r: Self)
        ensures
            r == Self::add_spec(self, rhs),
    ;

    fn ring_sub(self, rhs: Self) -> (r: Self)
        ensures
            r == Self::sub_spec(self, rhs),
    ;

    fn ring_mul(self, rhs: Self) -> (r: Self)
        ensures
            r == Self::mul_spec(self, rhs),
    ;

    proof fn lemma_add_assoc(a: Self, b: Self, c: Self)
        ensures
            Self::add_spec(Self::add_spec(a, b), c) == Self::add_spec(a, Self::add_spec(b, c)),
    ;

    proof fn lemma_add_comm(a: Self, b: Self)
        ensures
            Self::add_spec(a, b) == Self::add_spec(b, a),
    ;

    proof fn lemma_add_zero(a: Self)
        ensures
            Self::add_spec(Self::zero_spec(), a) == a,
    ;

    proof fn lemma_sub_add(a: Self, b: Self)
        ensures
            Self::add_spec(Self::sub_spec(a, b), b) == a,
    ;

    proof fn lemma_mul_assoc(a: Self, b: Self, c: Self)
        ensures
            Self::mul_spec(Self::mul_spec(a, b), c) == Self::mul_spec(a, Self::mul_spec(b, c)),
    ;

    proof fn lemma_mul_comm(a: Self, b: Self)
        ensures
            Self::mul_spec(a, b) == Self::mul_spec(b, a),
    ;

    proof fn lemma_mul_one(a: Self)
        ensures
            Self::mul_spec(Self::one_spec(), a) == a,
    ;

    proof fn lemma_mul_zero(a: Self)
        ensures
            Self::mul_spec(Self::zero_spec(), a) == Self::zero_spec(),
    ;

    proof fn lemma_distrib(a: Self, b: Self, c: Self)
        ensures
            Self::mul_spec(a, Self::add_spec(b, c)) == Self::add_spec(
                Self::mul_spec(a, b),
                Self::mul_spec(a, c),
            ),
    ;
}

/// A ring element that can also be divided.
pub trait FieldElement: RingElement {
    spec fn div_spec(a: Self, b: Self) -> Self;

    fn ring_div(self, rhs: Self) -> (r: Self)
        requires
            rhs != Self::zero_spec(),
        ensures
            r == Self::div_spec(self, rhs),
    ;
}

/// Congruence of `+` modulo `m` in its left operand.
proof fn lemma_add_cong(x: int, x2: int, y: int, m: int)
    requires
        0 < m,
        x % m == x2 % m,
    ensures
        (x + y) % m == (x2 + y) % m,
{
    lemma_add_mod_noop(x, y, m);
    lemma_add_mod_noop(x2, y, m);
}

/// Congruence of `*` modulo `m` in its left operand.
proof fn lemma_mul_cong(x: int, x2: int, y: int, m: int)
    requires
        0 < m,
        x % m == x2 % m,
    ensures
        (x * y) % m == (x2 * y) % m,
{
    lemma_mul_mod_noop_left(x, y, m);
    lemma_mul_mod_noop_left(x2, y, m);
}

pub open spec fn crop_u64(x: int) -> u64 {
    (x % 0x1_0000_0000_0000_0000) as u64
}

proof fn lemma_crop_u64(x: int)
    ensures
        (crop_u64(x) as int) % 0x1_0000_0000_0000_0000 == x % 0x1_0000_0000_0000_0000,
        forall|y: int|
            y % 0x1_0000_0000_0000_0000 == x % 0x1_0000_0000_0000_0000 ==> #[trigger] crop_u64(y)
                == crop_u64(x),
        0 <= x <= u64::MAX ==> crop_u64(x) == x,
{
    if 0 <= x <= u64::MAX {
        lemma_small_mod(x as nat, 0x1_0000_0000_0000_0000);
    }
}

/// Unsigned 64-bit integers with wrap-around arithmetic: the ring of
/// integers modulo 2^64.
impl RingElement for u64 {
    open spec fn zero_spec() -> u64 {
        0
    }

    open spec fn one_spec() -> u64 {
        1
    }

    open spec fn add_spec(a: u64, b: u64) -> u64 {
        crop_u64(a + b)
    }

    open spec fn sub_spec(a: u64, b: u64) -> u64 {
        crop_u64(a - b)
    }

    open spec fn mul_spec(a: u64, b: u64) -> u64 {
        crop_u64(a * b)
    }

    fn zero() -> (r: u64) {
        0
    }

    fn one() -> (r: u64) {
        1
    }

    fn ring_add(self, rhs: u64) -> (r: u64) {
        proof {
            lemma_crop_u64(self + rhs);
            lemma_crop_u64(self + rhs - 0x1_0000_0000_0000_0000);
        }
        self.wrapping_add(rhs)
    }

    fn ring_sub(self, rhs: u64) -> (r: u64) {
        proof {
            lemma_crop_u64(self - rhs);
            lemma_crop_u64(self - rhs + 0x1_0000_0000_0000_0000);
        }
        self.wrapping_sub(rhs)
    }

    fn ring_mul(self, rhs: u64) -> (r: u64) {
        self.wrapping_mul(rhs)
    }

    proof fn lemma_add_assoc(a: u64, b: u64, c: u64) {
        let m: int = 0x1_0000_0000_0000_0000;
        lemma_crop_u64(a + b);
        lemma_crop_u64(b + c);
        lemma_add_cong(crop_u64(a + b) as int, a + b, c as int, m);
        lemma_add_cong(crop_u64(b + c) as int, b + c, a as int, m);
        lemma_crop_u64(crop_u64(a + b) + c);
        lemma_crop_u64(a + crop_u64(b + c));
    }

    proof fn lemma_add_comm(a: u64, b: u64) {
    }

    proof fn lemma_add_zero(a: u64) {
        lemma_crop_u64(a as int);
    }

    proof fn lemma_sub_add(a: u64, b: u64) {
        let m: int = 0x1_0000_0000_0000_0000;
        lemma_crop_u64(a - b);
        lemma_add_cong(crop_u64(a - b) as int, a - b, b as int, m);
        lemma_crop_u64(crop_u64(a - b) + b);
        lemma_crop_u64(a as int);
    }

    proof fn lemma_mul_assoc(a: u64, b: u64, c: u64) {
        let m: int = 0x1_0000_0000_0000_0000;
        lemma_crop_u64(a * b);
        lemma_crop_u64(b * c);
        lemma_mul_cong(crop_u64(a * b) as int, a * b, c as int, m);
        lemma_mul_cong(crop_u64(b * c) as int, b * c, a as int, m);
        lemma_mul_is_associative(a as int, b as int, c as int);
        lemma_mul_is_commutative(a as int, crop_u64(b * c) as int);
        lemma_mul_is_commutative(a as int, b * c);
        lemma_crop_u64(crop_u64(a * b) * c);
        lemma_crop_u64(a * crop_u64(b * c));
    }

    proof fn lemma_mul_comm(a: u64, b: u64) {
        lemma_mul_is_commutative(a as int, b as int);
    }

    proof fn lemma_mul_one(a: u64) {
        lemma_crop_u64(a as int);
    }

    proof fn lemma_mul_zero(a: u64) {
        lemma_crop_u64(0);
    }

    proof fn lemma_distrib(a: u64, b: u64, c: u64) {
        let m: int = 0x1_0000_0000_0000_0000;
        let ab = crop_u64(a * b) as int;
        let ac = crop_u64(a * c) as int;
        lemma_crop_u64(b + c);
        lemma_crop_u64(a * b);
        lemma_crop_u64(a * c);
        lemma_mul_cong(crop_u64(b + c) as int, b + c, a as int, m);
        lemma_mul_is_commutative(a as int, crop_u64(b + c) as int);
        lemma_mul_is_commutative(a as int, b + c);
        lemma_mul_is_distributive_add(a as int, b as int, c as int);
        lemma_add_cong(ab, a * b, ac, m);
        lemma_add_cong(ac, a * c, a * b, m);
        lemma_crop_u64(a * crop_u64(b + c));
        lemma_crop_u64(ab + ac);
    }
}

proof fn lemma_crop_i32(x: int)
    ensures
        (crop_i32(x) as int) % 0x1_0000_0000 == x % 0x1_0000_0000,
        forall|y: int|
            y % 0x1_0000_0000 == x % 0x1_0000_0000 ==> #[trigger] crop_i32(y) == crop_i32(x),
        i32::MIN <= x <= i32::MAX ==> crop_i32(x) == x,
{
    let m: int = 0x1_0000_0000;
    if 0 <= x <= i32::MAX {
        lemma_small_mod(x as nat, m as nat);
    } else if i32::MIN <= x < 0 {
        lemma_small_mod((x + m) as nat, m as nat);
        lemma_add_mod_noop(x, m, m);
    }
    let r = x % m;
    if r > i32::MAX {
        lemma_add_mod_noop(r, -m, m);
    }
    lemma_small_mod(r as nat, m as nat);
}

/// Signed 32-bit integers with wrap-around arithmetic: the ring of
/// integers modulo 2^32, in two's-complement representatives.
impl RingElement for i32 {
    open spec fn zero_spec() -> i32 {
        0
    }

    open spec fn one_spec() -> i32 {
        1
    }

    open spec fn add_spec(a: i32, b: i32) -> i32 {
        crop_i32(a + b)
    }

    open spec fn sub_spec(a: i32, b: i32) -> i32 {
        crop_i32(a - b)
    }

    open spec fn mul_spec(a: i32, b: i32) -> i32 {
        crop_i32(a * b)
    }

    fn zero() -> (r: i32) {
        0
    }

    fn one() -> (r: i32) {
        1
    }

    fn ring_add(self, rhs: i32) -> (r: i32) {
        proof {
            lemma_crop_i32(self + rhs);
            lemma_crop_i32(self + rhs - 0x1_0000_0000);
            lemma_crop_i32(self + rhs + 0x1_0000_0000);
            lemma_add_mod_noop(self + rhs, 0x1_0000_0000, 0x1_0000_0000);
            lemma_add_mod_noop(self + rhs, -0x1_0000_0000, 0x1_0000_0000);
        }
        self.wrapping_add(rhs)
    }

    fn ring_sub(self, rhs: i32) -> (r: i32) {
        proof {
            lemma_crop_i32(self - rhs);
            lemma_crop_i32(self - rhs - 0x1_0000_0000);
            lemma_crop_i32(self - rhs + 0x1_0000_0000);
            lemma_add_mod_noop(self - rhs, 0x1_0000_0000, 0x1_0000_0000);
            lemma_add_mod_noop(self - rhs, -0x1_0000_0000, 0x1_0000_0000);
        }
        self.wrapping_sub(rhs)
    }

    fn ring_mul(self, rhs: i32) -> (r: i32) {
        self.wrapping_mul(rhs)
    }

    proof fn lemma_add_assoc(a: i32, b: i32, c: i32) {
        let m: int = 0x1_0000_0000;
        lemma_crop_i32(a + b);
        lemma_crop_i32(b + c);
        lemma_add_cong(crop_i32(a + b) as int, a + b, c as int, m);
        lemma_add_cong(crop_i32(b + c) as int, b + c, a as int, m);
        lemma_crop_i32(crop_i32(a + b) + c);
        lemma_crop_i32(a + crop_i32(b + c));
    }

    proof fn lemma_add_comm(a: i32, b: i32) {
    }

    proof fn lemma_add_zero(a: i32) {
        lemma_crop_i32(a as int);
    }

    proof fn lemma_sub_add(a: i32, b: i32) {
        let m: int = 0x1_0000_0000;
        lemma_crop_i32(a - b);
        lemma_add_cong(crop_i32(a - b) as int, a - b, b as int, m);
        lemma_crop_i32(crop_i32(a - b) + b);
        lemma_crop_i32(a as int);
    }

    proof fn lemma_mul_assoc(a: i32, b: i32, c: i32) {
        let m: int = 0x1_0000_0000;
        lemma_crop_i32(a * b);
        lemma_crop_i32(b * c);
        lemma_mul_cong(crop_i32(a * b) as int, a * b, c as int, m);
        lemma_mul_cong(crop_i32(b * c) as int, b * c, a as int, m);
        lemma_mul_is_associative(a as int, b as int, c as int);
        lemma_mul_is_commutative(a as int, crop_i32(b * c) as int);
        lemma_mul_is_commutative(a as int, b * c);
        lemma_crop_i32(crop_i32(a * b) * c);
        lemma_crop_i32(a * crop_i32(b * c));
    }

    proof fn lemma_mul_comm(a: i32, b: i32) {
        lemma_mul_is_commutative(a as int, b as int);
    }

    proof fn lemma_mul_one(a: i32) {
        lemma_crop_i32(a as int);
    }

    proof fn lemma_mul_zero(a: i32) {
        lemma_crop_i32(0);
    }

    proof fn lemma_distrib(a: i32, b: i32, c: i32) {
        let m: int = 0x1_0000_0000;
        let ab = crop_i32(a * b) as int;
        let ac = crop_i32(a * c) as int;
        lemma_crop_i32(b + c);
        lemma_crop_i32(a * b);
        lemma_crop_i32(a * c);
        lemma_mul_cong(crop_i32(b + c) as int, b + c, a as int, m);
        lemma_mul_is_commutative(a as int, crop_i32(b + c) as int);
        lemma_mul_is_commutative(a as int, b + c);
        lemma_mul_is_distributive_add(a as int, b as int, c as int);
        lemma_add_cong(ab, a * b, ac, m);
        lemma_add_cong(ac, a * c, a * b, m);
        lemma_crop_i32(a * crop_i32(b + c));
        lemma_crop_i32(ab + ac);
    }
}

/// Unsigned 64-bit division rounds toward zero.
impl FieldElement for u64 {
    open spec fn div_spec(a: u64, b: u64) -> u64 {
        a / b
    }

    fn ring_div(self, rhs: u64) -> (r: u64) {
        self / rhs
    }
}

} // verus!
