//! Truncated remainder on mathematical integers, and the algebraic facts
//! about it that the exponentiation proof rests on.
//!
//! Rust's `%` on its integer types truncates toward zero: the magnitudes are
//! divided and the remainder keeps the sign of the dividend. Verus's
//! mathematical `%` is Euclidean instead, so the model of the executable
//! remainder is spelled out here as [`rem_trunc`].

use vstd::prelude::*;
use vstd::arithmetic::div_mod::{
    lemma_fundamental_div_mod, lemma_mod_bound, lemma_mod_multiples_vanish, lemma_mod_twice,
    lemma_mul_mod_noop_left, lemma_small_mod, lemma_div_is_ordered, lemma_div_by_multiple,
};
use vstd::arithmetic::mul::{
    lemma_mul_basics, lemma_mul_is_associative, lemma_mul_is_commutative, lemma_mul_inequality,
    lemma_mul_unary_negation,
};
use vstd::arithmetic::power::{pow, lemma_pow0};

verus! {

/// Remainder with the sign convention of Rust's `%` operator: the result has
/// the magnitude of `|a| % |m|` and the sign of the dividend `a`.
///
/// For `a >= 0` (so in particular for every unsigned type) this coincides
/// with the Euclidean `%`.
pub open spec fn rem_trunc(a: int, m: int) -> int {
    if a >= 0 {
        a % m
    } else {
        -((-a) % m)
    }
}

/// The truncated remainder lies strictly between `-m` and `m`, and keeps the
/// sign of the dividend.
pub proof fn lemma_rem_trunc_bounds(a: int, m: int)
    requires
        m > 0,
    ensures
        -m < rem_trunc(a, m) < m,
        a >= 0 ==> rem_trunc(a, m) >= 0,
        a <= 0 ==> rem_trunc(a, m) <= 0,
{
    if a >= 0 {
        lemma_mod_bound(a, m);
        lemma_small_mod(0nat, m as nat);
    } else {
        lemma_mod_bound(-a, m);
    }
}

/// The truncated remainder is congruent to the dividend: reducing it once
/// more with the Euclidean `%` gives the dividend's Euclidean residue.
pub proof fn lemma_rem_trunc_congruent(a: int, m: int)
    requires
        m > 0,
    ensures
        rem_trunc(a, m) % m == a % m,
{
    if a >= 0 {
        lemma_mod_twice(a, m);
    } else {
        let q = (-a) / m;
        let r = (-a) % m;
        lemma_fundamental_div_mod(-a, m);
        lemma_mul_unary_negation(m, q);
        assert(a == m * (-q) + (-r));
        lemma_mod_multiples_vanish(-q, -r, m);
    }
}

/// A value already strictly between `-m` and `m` is its own truncated
/// remainder.
pub proof fn lemma_rem_trunc_small(a: int, m: int)
    requires
        m > 0,
        -m < a < m,
    ensures
        rem_trunc(a, m) == a,
{
    if a >= 0 {
        lemma_small_mod(a as nat, m as nat);
    } else {
        lemma_small_mod((-a) as nat, m as nat);
    }
}

/// Congruent values stay congruent under multiplication by a common factor.
pub proof fn lemma_mod_mul_congruent(a: int, b: int, z: int, m: int)
    requires
        m > 0,
        a % m == b % m,
    ensures
        (a * z) % m == (b * z) % m,
{
    lemma_mul_mod_noop_left(a, z, m);
    lemma_mul_mod_noop_left(b, z, m);
}

/// Congruent values have congruent negations.
pub proof fn lemma_mod_neg_congruent(a: int, b: int, m: int)
    requires
        m > 0,
        a % m == b % m,
    ensures
        (-a) % m == (-b) % m,
{
    let r = a % m;
    lemma_fundamental_div_mod(a, m);
    lemma_fundamental_div_mod(b, m);
    lemma_mul_unary_negation(m, a / m);
    lemma_mul_unary_negation(m, b / m);
    assert(-a == m * (-(a / m)) + (-r));
    assert(-b == m * (-(b / m)) + (-r));
    lemma_mod_multiples_vanish(-(a / m), -r, m);
    lemma_mod_multiples_vanish(-(b / m), -r, m);
}

/// A multiple of `m` stays a multiple of `m` when negated.
proof fn lemma_mod_zero_neg(w: int, m: int)
    requires
        m > 0,
        w % m == 0,
    ensures
        (-w) % m == 0,
{
    lemma_fundamental_div_mod(w, m);
    lemma_mul_unary_negation(m, w / m);
    assert(-w == m * (-(w / m)) + 0);
    lemma_mod_multiples_vanish(-(w / m), 0, m);
    lemma_small_mod(0nat, m as nat);
}

/// A factor of a product may be replaced by its truncated remainder without
/// changing the product's truncated remainder. This is the step that lets
/// the exponentiation loop reduce after every multiplication.
pub proof fn lemma_rem_trunc_mul_left(x: int, y: int, m: int)
    requires
        m > 0,
    ensures
        rem_trunc(rem_trunc(x, m) * y, m) == rem_trunc(x * y, m),
{
    let rx = rem_trunc(x, m);
    lemma_rem_trunc_bounds(x, m);
    lemma_rem_trunc_congruent(x, m);
    lemma_mod_mul_congruent(rx, x, y, m);
    if rx == 0 {
        // x is a multiple of m, so both products reduce to zero.
        assert(x % m == 0) by {
            lemma_small_mod(0nat, m as nat);
        }
        assert((x * y) % m == 0) by {
            lemma_mul_mod_noop_left(x, y, m);
            lemma_mul_basics(y);
            assert((x % m) * y == 0);
            lemma_small_mod(0nat, m as nat);
        }
        assert(rem_trunc(x * y, m) == 0) by {
            if x * y < 0 {
                lemma_mod_zero_neg(x * y, m);
            }
        }
        assert(rem_trunc(rx * y, m) == 0) by {
            lemma_mul_basics(y);
            assert(rx * y == 0);
            lemma_small_mod(0nat, m as nat);
        }
    } else if y == 0 {
        assert(rx * y == 0 && x * y == 0) by (nonlinear_arith)
            requires
                y == 0,
        ;
    } else if rx > 0 {
        // rem_trunc keeps the dividend's sign, so x >= 0 here.
        assert(x >= 0);
        if y > 0 {
            assert(rx * y > 0 && x * y >= 0) by (nonlinear_arith)
                requires
                    rx > 0 && y > 0 && x >= 0,
            ;
        } else {
            assert(rx * y < 0 && x * y <= 0) by (nonlinear_arith)
                requires
                    rx > 0 && y < 0 && x >= 0,
            ;
            assert(-(rx * y) == rx * (-y) && -(x * y) == x * (-y)) by (nonlinear_arith);
            lemma_mod_mul_congruent(rx, x, -y, m);
            if x * y == 0 {
                // Then x == 0, contradicting rx > 0.
                assert(x == 0) by (nonlinear_arith)
                    requires
                        x * y == 0 && y < 0,
                ;
                assert(false) by {
                    lemma_small_mod(0nat, m as nat);
                }
            }
        }
    } else {
        // rx < 0, hence x < 0.
        assert(x < 0);
        if y > 0 {
            assert(rx * y < 0 && x * y < 0) by (nonlinear_arith)
                requires
                    rx < 0 && y > 0 && x < 0,
            ;
            assert(-(rx * y) == (-rx) * y && -(x * y) == (-x) * y) by (nonlinear_arith);
            lemma_mod_neg_congruent(rx * y, x * y, m);
        } else {
            assert(rx * y > 0 && x * y > 0) by (nonlinear_arith)
                requires
                    rx < 0 && y < 0 && x < 0,
            ;
        }
    }
}

/// The base of a power may be replaced by its truncated remainder without
/// changing the truncated remainder of any product with that power.
pub proof fn lemma_rem_trunc_pow(z: int, y: int, k: nat, m: int)
    requires
        m > 0,
    ensures
        rem_trunc(z * pow(rem_trunc(y, m), k), m) == rem_trunc(z * pow(y, k), m),
    decreases k,
{
    let ry = rem_trunc(y, m);
    if k == 0 {
        lemma_pow0(ry);
        lemma_pow0(y);
    } else {
        let kk = (k - 1) as nat;
        assert(pow(ry, k) == ry * pow(ry, kk) && pow(y, k) == y * pow(y, kk)) by {
            reveal(pow);
        }
        lemma_mul_is_associative(z, ry, pow(ry, kk));
        lemma_mul_is_commutative(z, ry);
        lemma_mul_is_associative(ry, z, pow(ry, kk));
        // z * (ry * pow(ry, kk)) == ry * (z * pow(ry, kk))
        lemma_mul_is_commutative(ry, z * pow(ry, kk));
        lemma_rem_trunc_mul_left(y, z * pow(ry, kk), m);
        // == rem_trunc(y * (z * pow(ry, kk)), m) == rem_trunc((z * y) * pow(ry, kk), m)
        lemma_mul_is_commutative(y, z * pow(ry, kk));
        lemma_mul_is_associative(z, pow(ry, kk), y);
        lemma_mul_is_commutative(pow(ry, kk), y);
        lemma_mul_is_associative(z, y, pow(ry, kk));
        lemma_rem_trunc_pow(z * y, y, kk, m);
        // == rem_trunc((z * y) * pow(y, kk), m) == rem_trunc(z * pow(y, k), m)
        lemma_mul_is_associative(z, y, pow(y, kk));
    }
}

/// The overflow guard's division form is exact: for `m > 1`,
/// `(m - 1) < max / (m - 1)` holds if and only if `m * (m - 1)` fits below
/// `max`; either way it implies that the square `(m - 1) * (m - 1)` of the
/// largest reduced value fits. The guard is therefore conservative: it is a
/// property of the modulus and the type alone.
pub proof fn lemma_guard_division_form(m: int, max: int)
    requires
        m > 1,
        max >= 0,
    ensures
        ((m - 1) < max / (m - 1)) <==> (m * (m - 1) <= max),
        (m - 1) < max / (m - 1) ==> (m - 1) * (m - 1) <= max,
{
    if (m - 1) < max / (m - 1) {
        lemma_fundamental_div_mod(max, m - 1);
        lemma_mod_bound(max, m - 1);
        assert(m <= max / (m - 1));
        lemma_mul_inequality(m, max / (m - 1), m - 1);
        lemma_mul_is_commutative(m - 1, max / (m - 1));
        assert(m * (m - 1) <= max);
        lemma_mul_inequality(m - 1, m, m - 1);
    }
    if m * (m - 1) <= max {
        lemma_div_is_ordered(m * (m - 1), max, m - 1);
        lemma_div_by_multiple(m, m - 1);
        lemma_mul_is_commutative(m, m - 1);
        assert(m <= max / (m - 1));
    }
}

} // verus!
