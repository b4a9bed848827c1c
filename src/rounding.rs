//! The rounding maps between the ciphertext ring `Z_q` and the plaintext
//! ring `Z_t`, computed exactly on integers.
use vstd::arithmetic::div_mod::{
    lemma_fundamental_div_mod, lemma_fundamental_div_mod_converse, lemma_small_mod,
};
use vstd::prelude::*;

verus! {

/// `a / b` rounded to the nearest integer, halves away from zero
/// (for `a >= 0` and `b > 0`).
pub open spec fn round_div(a: int, b: int) -> int {
    (2 * a + b) / (2 * b)
}

/// The plaintext symbol that a residue `v` modulo `q` stands for:
/// `round((t / q) · v) mod t`.
pub open spec fn f_inv_spec(v: int, t: int, q: int) -> int {
    round_div(t * v, q) % t
}

/// A plaintext symbol `w` carried up to the ciphertext ring: `round(w · (q / t))`.
pub open spec fn lift_spec(w: int, t: int, q: int) -> int {
    round_div(w * q, t)
}

/// Rounding by quotient and remainder: `round_div(a, b)` is `a / b`, plus one
/// when the remainder is at least half of `b`.
pub proof fn lemma_round_div(a: int, b: int)
    requires
        0 <= a,
        0 < b,
    ensures
        round_div(a, b) == a / b + if a % b >= b - a % b {
            1int
        } else {
            0int
        },
        0 <= round_div(a, b),
{
    lemma_fundamental_div_mod(a, b);
    let k = a / b;
    let r = a % b;
    assert(0 <= k) by {
        vstd::arithmetic::div_mod::lemma_div_pos_is_pos(a, b);
    }
    if r >= b - r {
        assert(2 * a + b == (k + 1) * (2 * b) + (2 * r - b)) by (nonlinear_arith)
            requires
                a == b * k + r,
        ;
        lemma_fundamental_div_mod_converse(2 * a + b, 2 * b, k + 1, 2 * r - b);
    } else {
        assert(2 * a + b == k * (2 * b) + (2 * r + b)) by (nonlinear_arith)
            requires
                a == b * k + r,
        ;
        lemma_fundamental_div_mod_converse(2 * a + b, 2 * b, k, 2 * r + b);
    }
}

/// Bounds that pin `round_div(a, b)` down: `2b·r - b <= 2a < 2b·r + b`.
proof fn lemma_round_div_bounds(a: int, b: int)
    requires
        0 <= a,
        0 < b,
    ensures
        2 * b * round_div(a, b) <= 2 * a + b < 2 * b * round_div(a, b) + 2 * b,
{
    lemma_fundamental_div_mod(2 * a + b, 2 * b);
    let y = round_div(a, b);
    let rem = (2 * a + b) % (2 * b);
    assert(2 * a + b == 2 * b * y + rem);
}

/// Any `y` with `2b·y <= 2a + b < 2b·y + 2b` is `round_div(a, b)`.
proof fn lemma_round_div_unique(a: int, b: int, y: int)
    requires
        0 <= a,
        0 < b,
        2 * b * y <= 2 * a + b < 2 * b * y + 2 * b,
    ensures
        round_div(a, b) == y,
{
    assert(2 * a + b == y * (2 * b) + (2 * a + b - 2 * b * y)) by (nonlinear_arith);
    lemma_fundamental_div_mod_converse(2 * a + b, 2 * b, y, 2 * a + b - 2 * b * y);
}

/// Decoding a lifted symbol gives the symbol back, when `t <= q`:
/// `f_inv(lift(f_inv(v))) == f_inv(v)`.
pub proof fn lemma_rounding_idempotent(v: int, t: int, q: int)
    requires
        0 <= v,
        1 < t <= q,
    ensures
        f_inv_spec(lift_spec(f_inv_spec(v, t, q), t, q), t, q) == f_inv_spec(v, t, q),
{
    let w = f_inv_spec(v, t, q);
    assert(0 <= t * v) by (nonlinear_arith)
        requires
            0 <= v,
            1 < t,
    ;
    lemma_round_div(t * v, q);
    assert(0 <= w < t);
    lemma_decode_lift(w, t, q);
}

/// Decoding the lift of a symbol `w < t` gives `w`, when `t <= q`.
pub proof fn lemma_decode_lift(w: int, t: int, q: int)
    requires
        0 <= w < t,
        1 < t <= q,
    ensures
        f_inv_spec(lift_spec(w, t, q), t, q) == w,
{
    assert(0 <= w * q) by (nonlinear_arith)
        requires
            0 <= w,
            0 < q,
    ;
    lemma_round_div_bounds(w * q, t);
    let y = lift_spec(w, t, q);
    assert(0 <= y) by {
        lemma_round_div(w * q, t);
    }
    assert(0 <= t * y) by (nonlinear_arith)
        requires
            0 <= y,
            0 < t,
    ;
    // 2ty lies within t of 2wq, so 2ty + q lies in [2qw, 2qw + 2q).
    if t < q {
        assert(2 * q * w <= 2 * (t * y) + q < 2 * q * w + 2 * q) by (nonlinear_arith)
            requires
                2 * t * y <= 2 * (w * q) + t < 2 * t * y + 2 * t,
                t < q,
        ;
    } else {
        assert(y == w) by {
            assert(2 * t * w <= 2 * (w * q) + t < 2 * t * w + 2 * t) by (nonlinear_arith)
                requires
                    t == q,
                    0 < t,
            ;
            lemma_round_div_unique(w * q, t, w);
        }
        assert(2 * q * w <= 2 * (t * y) + q < 2 * q * w + 2 * q) by (nonlinear_arith)
            requires
                y == w,
                t == q,
                0 < q,
        ;
    }
    lemma_round_div_unique(t * y, q, w);
    lemma_small_mod(w as nat, t as nat);
}

} // verus!
