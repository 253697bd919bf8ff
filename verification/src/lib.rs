//! Divisibility of 32-bit signed integers.
//!
//! The heart of the crate is [`is_divisible_by`], which decides whether one
//! integer is evenly divisible by another. A zero divisor yields `false` by
//! design: division by zero counts as "not divisible" rather than an error,
//! so the predicate is total over every pair of `i32` values. Remainders are
//! taken with truncating (toward-zero) semantics, where the sign of the
//! remainder follows the dividend, as with Rust's `%` on signed integers.

use vstd::prelude::*;

verus! {

use vstd::arithmetic::div_mod::lemma_fundamental_div_mod;
use vstd::arithmetic::div_mod::lemma_mod_multiples_basic;
use vstd::arithmetic::mul::lemma_mul_is_commutative;
use vstd::arithmetic::mul::lemma_mul_unary_negation;
use vstd::math::abs;

/// The remainder of `n` divided by `d` under truncating (toward-zero)
/// division: its magnitude is `|n| % |d|` and its sign follows the
/// dividend `n`.
pub open spec fn trunc_mod(n: int, d: int) -> int
    recommends
        d != 0,
{
    if n >= 0 {
        n % (abs(d) as int)
    } else {
        -((-n) % (abs(d) as int))
    }
}

/// What the divisibility predicate returns: `false` on a zero divisor,
/// otherwise whether the truncating remainder of `lhs` by `rhs` is zero.
pub open spec fn spec_is_divisible_by(lhs: i32, rhs: i32) -> bool {
    rhs != 0 && trunc_mod(lhs as int, rhs as int) == 0
}

/// Whether `lhs` is evenly divisible by `rhs`.
///
/// A zero divisor yields `false`: division by zero is treated as
/// "not divisible", not as an error, so every pair of inputs is allowed.
pub fn is_divisible_by(lhs: i32, rhs: i32) -> (r: bool)
    ensures
        r == spec_is_divisible_by(lhs, rhs),
{
    if rhs == 0 {
        return false;
    }
    let la: u64 = if lhs >= 0 {
        lhs as u64
    } else {
        (-(lhs as i64)) as u64
    };
    let ra: u64 = if rhs >= 0 {
        rhs as u64
    } else {
        (-(rhs as i64)) as u64
    };
    la % ra == 0
}

/// The fixed line that the demonstration routine announces itself with.
pub fn another_function() -> (r: &'static str)
    ensures
        r@ == "another_function"@,
{
    "another_function"
}

/// A zero divisor divides nothing: the predicate is `false` for every
/// dividend when the divisor is zero.
pub proof fn lemma_zero_divisor(lhs: i32)
    ensures
        !spec_is_divisible_by(lhs, 0),
{
}

/// The predicate is pure: its specification is a function of the two
/// arguments alone, so results pinned to the same inputs coincide, and two
/// calls on identical inputs return identical values.
pub proof fn lemma_deterministic(lhs: i32, rhs: i32, r1: bool, r2: bool)
    requires
        r1 == spec_is_divisible_by(lhs, rhs),
        r2 == spec_is_divisible_by(lhs, rhs),
    ensures
        r1 == r2,
{
}

/// For a nonzero divisor, the truncating remainder of `n` by `d` is zero
/// exactly when `n` is an integer multiple of `d`.
pub proof fn lemma_trunc_mod_zero_iff_multiple(n: int, d: int)
    requires
        d != 0,
    ensures
        (trunc_mod(n, d) == 0) <==> (exists|k: int| n == #[trigger] (k * d)),
{
    let b: int = abs(d) as int;
    if trunc_mod(n, d) == 0 {
        if n >= 0 {
            lemma_fundamental_div_mod(n, b);
            let q: int = n / b;
            if d > 0 {
                assert(n == q * d) by {
                    lemma_mul_is_commutative(b, q);
                };
            } else {
                assert(n == (-q) * d) by {
                    lemma_mul_is_commutative(b, q);
                    lemma_mul_unary_negation(q, d);
                };
            }
        } else {
            lemma_fundamental_div_mod(-n, b);
            let q: int = (-n) / b;
            if d > 0 {
                assert(n == (-q) * d) by {
                    lemma_mul_is_commutative(b, q);
                    lemma_mul_unary_negation(q, d);
                };
            } else {
                assert(n == q * d) by {
                    lemma_mul_is_commutative(b, q);
                    lemma_mul_unary_negation(q, d);
                };
            }
        }
    }
    if exists|k: int| n == #[trigger] (k * d) {
        let k: int = choose|k: int| n == #[trigger] (k * d);
        if n >= 0 {
            if d > 0 {
                lemma_mod_multiples_basic(k, b);
                assert(k * b == k * d);
            } else {
                lemma_mod_multiples_basic(-k, b);
                assert((-k) * b == k * d) by {
                    lemma_mul_unary_negation(k, -d);
                };
            }
        } else {
            if d > 0 {
                lemma_mod_multiples_basic(-k, b);
                assert((-k) * b == -(k * d)) by {
                    lemma_mul_unary_negation(k, d);
                };
            } else {
                lemma_mod_multiples_basic(k, b);
                assert(k * b == -(k * d)) by {
                    lemma_mul_unary_negation(k, d);
                };
            }
        }
    }
}

/// For a nonzero divisor, the predicate holds exactly when the dividend is
/// an integer multiple of the divisor.
pub proof fn lemma_nonzero_divisor(lhs: i32, rhs: i32)
    requires
        rhs != 0,
    ensures
        spec_is_divisible_by(lhs, rhs) <==> (exists|k: int| lhs as int == #[trigger] (k * (rhs as int))),
{
    lemma_trunc_mod_zero_iff_multiple(lhs as int, rhs as int);
}

} // verus!
