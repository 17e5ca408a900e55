//! The modular exponentiator: right-to-left binary exponentiation with an
//! overflow guard, generic over the numeric capability set.

use vstd::prelude::*;
use vstd::arithmetic::div_mod::{lemma_fundamental_div_mod, lemma_mod_bound, lemma_small_mod};
use vstd::arithmetic::mul::{lemma_mul_basics, lemma_mul_is_associative};
use vstd::arithmetic::power::{
    pow, lemma_pow0, lemma_pow1, lemma_pow_adds, lemma_pow_multiplies, lemma_pow_positive,
    lemma_square_is_pow2, lemma0_pow,
};
use crate::arith::{
    rem_trunc, lemma_guard_division_form, lemma_rem_trunc_bounds, lemma_rem_trunc_mul_left,
    lemma_rem_trunc_pow, lemma_rem_trunc_small,
};
use crate::numeric::ModExpInt;

verus! {

/// The exponent the loop actually iterates over: a negative exponent ends
/// the loop at once, exactly as zero does.
pub open spec fn exp_clip(e: int) -> nat {
    if e >= 0 {
        e as nat
    } else {
        0
    }
}

/// What modular exponentiation returns: `base ^ exponent`, reduced by the
/// truncating remainder of the operand type. For a nonnegative base this is
/// the Euclidean `pow(b, e) % m`; for a negative base the result keeps the
/// sign that repeated truncating reduction gives it.
pub open spec fn mod_exp_spec(b: int, e: int, m: int) -> int {
    rem_trunc(pow(b, exp_clip(e)), m)
}

/// The overflow guard, in the division form that cannot itself overflow: for
/// a modulus above one, the largest reduced value `m - 1` must lie strictly
/// below `max / (m - 1)`. [`crate::arith::lemma_guard_division_form`] shows
/// this equivalent to `m * (m - 1) <= max`, which in turn bounds every
/// product of two reduced values.
pub open spec fn guard_ok(m: int, max: int) -> bool {
    m > 1 ==> (m - 1) < max / (m - 1)
}

/// The one failure this crate knows: the operand type cannot represent the
/// intermediate products that the given modulus could force, so the
/// computation is refused rather than allowed to wrap.
#[derive(Clone, Copy, Debug, PartialEq, Eq, Structural)]
pub enum ModExpError {
    PreconditionViolation,
}

/// Both products of values reduced modulo `m` are representable when the
/// guard holds.
proof fn lemma_products_fit(rr: int, bb: int, m: int, min: int, max: int)
    requires
        m >= 1,
        max >= 2,
        min <= 0,
        min == 0 || min <= -max,
        guard_ok(m, max),
        -m < rr < m,
        -m < bb < m,
        min <= rr,
        min <= bb,
    ensures
        min <= rr * bb <= max,
        min <= bb * bb <= max,
{
    if m == 1 {
        assert(rr == 0 && bb == 0);
        assert(rr * bb == 0 && bb * bb == 0) by (nonlinear_arith)
            requires
                rr == 0 && bb == 0,
        ;
    } else {
        lemma_guard_division_form(m, max);
        assert((m - 1) * (m - 1) <= max);
        assert(rr * bb <= (m - 1) * (m - 1) && -((m - 1) * (m - 1)) <= rr * bb) by (nonlinear_arith)
            requires
                m > 1 && -m < rr < m && -m < bb < m,
        ;
        assert(0 <= bb * bb && bb * bb <= (m - 1) * (m - 1)) by (nonlinear_arith)
            requires
                m > 1 && -m < bb < m,
        ;
        if min == 0 {
            assert(0 <= rr * bb) by (nonlinear_arith)
                requires
                    rr >= 0 && bb >= 0,
            ;
        }
    }
}

/// One iteration of the square-and-multiply loop keeps the accumulated
/// product congruent: with `ee > 0`, halving the exponent, squaring the
/// reduced base, and (for an odd exponent) multiplying the reduced
/// accumulator leaves the truncated remainder of
/// `accumulator * base ^ exponent` unchanged.
proof fn lemma_step(rr: int, bb: int, ee: int, m: int)
    requires
        m >= 1,
        ee > 0,
    ensures
        ee % 2 == 1 ==> rem_trunc(
            rem_trunc(rr * bb, m) * pow(rem_trunc(bb * bb, m), exp_clip(ee / 2)),
            m,
        ) == rem_trunc(rr * pow(bb, exp_clip(ee)), m),
        ee % 2 != 1 ==> rem_trunc(rr * pow(rem_trunc(bb * bb, m), exp_clip(ee / 2)), m)
            == rem_trunc(rr * pow(bb, exp_clip(ee)), m),
{
    lemma_fundamental_div_mod(ee, 2);
    lemma_mod_bound(ee, 2);
    let k = exp_clip(ee / 2);
    assert(0 <= ee / 2);
    assert(ee == 2 * (ee / 2) + ee % 2);
    // pow(bb * bb, k) == pow(bb, 2 * k)
    lemma_square_is_pow2(bb);
    lemma_pow_multiplies(bb, 2, k);
    assert(pow(bb * bb, k) == pow(bb, 2 * k));
    if ee % 2 == 1 {
        let racc = rem_trunc(rr * bb, m);
        lemma_rem_trunc_pow(racc, bb * bb, k, m);
        assert(rem_trunc(racc * pow(rem_trunc(bb * bb, m), k), m) == rem_trunc(
            racc * pow(bb * bb, k),
            m,
        ));
        lemma_rem_trunc_mul_left(rr * bb, pow(bb * bb, k), m);
        assert(rem_trunc(racc * pow(bb * bb, k), m) == rem_trunc((rr * bb) * pow(bb, 2 * k), m));
        // (rr * bb) * pow(bb, 2k) == rr * pow(bb, 2k + 1)
        lemma_pow1(bb);
        lemma_pow_adds(bb, 1, 2 * k);
        assert(pow(bb, 1 + 2 * k) == bb * pow(bb, 2 * k));
        lemma_mul_is_associative(rr, bb, pow(bb, 2 * k));
        assert((rr * bb) * pow(bb, 2 * k) == rr * pow(bb, (2 * k + 1) as nat));
        assert(exp_clip(ee) == 2 * k + 1);
    } else {
        lemma_rem_trunc_pow(rr, bb * bb, k, m);
        assert(rem_trunc(rr * pow(rem_trunc(bb * bb, m), k), m) == rem_trunc(
            rr * pow(bb, 2 * k),
            m,
        ));
        assert(exp_clip(ee) == 2 * k);
    }
}

/// Computes `base ^ exponent % modulus` by the right-to-left binary method:
/// the base is reduced once up front, then squared and reduced for each bit
/// of the exponent, the accumulator being multiplied in (and reduced) for
/// each set bit. The exponent's bit length, not its value, bounds the number
/// of multiplications.
///
/// The caller must supply a positive modulus for which the overflow guard
/// holds, so that every intermediate product of two reduced values is
/// representable; [`mod_exp_checked`] performs that check at run time
/// instead. An exponent at or below zero yields one, reduced — a negative
/// exponent is not treated as a modular inverse. For a negative base the
/// result follows the operand type's truncating remainder and may be
/// negative; it is not normalized to a canonical residue.
pub fn mod_exp<T: ModExpInt>(base: T, exponent: T, modulus: T) -> (r: T)
    requires
        modulus.as_int() >= 1,
        guard_ok(modulus.as_int(), T::max_int()),
    ensures
        r.as_int() == mod_exp_spec(base.as_int(), exponent.as_int(), modulus.as_int()),
{
    let ghost b0 = base.as_int();
    let ghost e0 = exponent.as_int();
    let ghost mi = modulus.as_int();
    let ghost goal = mod_exp_spec(b0, e0, mi);

    let one_v: T = T::one();
    let zero_v: T = T::zero();
    proof {
        modulus.lemma_range();
    }
    let two_v: T = one_v.plus(one_v);

    let mut result: T = one_v.rem_by(modulus);
    let mut base_r: T = base.rem_by(modulus);
    let mut exp_r: T = exponent;

    proof {
        lemma_rem_trunc_bounds(1, mi);
        lemma_rem_trunc_bounds(b0, mi);
        let k0 = exp_clip(e0);
        lemma_rem_trunc_pow(rem_trunc(1, mi), b0, k0, mi);
        lemma_rem_trunc_mul_left(1, pow(b0, k0), mi);
        lemma_mul_basics(pow(b0, k0));
        assert(rem_trunc(result.as_int() * pow(base_r.as_int(), k0), mi) == goal);
    }

    loop
        invariant
            modulus.as_int() == mi,
            mi >= 1,
            guard_ok(mi, T::max_int()),
            one_v.as_int() == 1,
            zero_v.as_int() == 0,
            two_v.as_int() == 2,
            -mi < result.as_int() < mi,
            -mi < base_r.as_int() < mi,
            rem_trunc(result.as_int() * pow(base_r.as_int(), exp_clip(exp_r.as_int())), mi)
                == goal,
        ensures
            exp_r.as_int() <= 0,
            -mi < result.as_int() < mi,
            rem_trunc(result.as_int() * pow(base_r.as_int(), exp_clip(exp_r.as_int())), mi)
                == goal,
        decreases exp_clip(exp_r.as_int()),
    {
        if exp_r.le(zero_v) {
            break;
        }

        let ghost rr = result.as_int();
        let ghost bb = base_r.as_int();
        let ghost ee = exp_r.as_int();
        proof {
            result.lemma_range();
            base_r.lemma_range();
            lemma_products_fit(rr, bb, mi, T::min_int(), T::max_int());
            lemma_step(rr, bb, ee, mi);
            // The executable test below sees the truncating remainder, which
            // for the positive exponent is the Euclidean one.
            assert(rem_trunc(ee, 2) == ee % 2);
        }

        if exp_r.rem_by(two_v).eq_val(one_v) {
            result = result.times(base_r).rem_by(modulus);
            proof {
                lemma_rem_trunc_bounds(rr * bb, mi);
            }
        }
        exp_r = exp_r.shr1();
        base_r = base_r.times(base_r).rem_by(modulus);
        proof {
            lemma_rem_trunc_bounds(bb * bb, mi);
        }
    }

    proof {
        lemma_pow0(base_r.as_int());
        lemma_mul_basics(result.as_int());
        assert(rem_trunc(result.as_int(), mi) == goal);
        lemma_rem_trunc_small(result.as_int(), mi);
    }
    result
}

/// Performs the overflow guard of [`mod_exp`] at run time: a modulus whose
/// reduced products the operand type cannot represent is refused with
/// [`ModExpError::PreconditionViolation`] before any arithmetic, never
/// answered with a silently wrapped value. The guard is a property of the
/// modulus and the type alone; it does not look at the base or the exponent.
pub fn mod_exp_checked<T: ModExpInt>(base: T, exponent: T, modulus: T) -> (r: Result<
    T,
    ModExpError,
>)
    requires
        modulus.as_int() >= 1,
    ensures
        r is Ok <==> guard_ok(modulus.as_int(), T::max_int()),
        r is Ok ==> (r->Ok_0).as_int() == mod_exp_spec(
            base.as_int(),
            exponent.as_int(),
            modulus.as_int(),
        ),
        r is Err ==> r->Err_0 == ModExpError::PreconditionViolation,
{
    let one_v: T = T::one();
    proof {
        modulus.lemma_range();
    }
    if one_v.lt(modulus) {
        let max_v: T = T::max_value();
        let reduced_top: T = modulus.minus(one_v);
        if !reduced_top.lt(max_v.div_by(reduced_top)) {
            return Err(ModExpError::PreconditionViolation);
        }
    }
    Ok(mod_exp(base, exponent, modulus))
}

/// Raising any base to the exponent zero yields one, reduced: for a modulus
/// above one the result is exactly one.
pub proof fn lemma_mod_exp_zero_exponent(b: int, m: int)
    requires
        m > 1,
    ensures
        mod_exp_spec(b, 0, m) == 1,
{
    lemma_pow0(b);
    lemma_small_mod(1nat, m as nat);
}

/// With modulus one, every result is zero.
pub proof fn lemma_mod_exp_modulus_one(b: int, e: int)
    ensures
        mod_exp_spec(b, e, 1) == 0,
{
    let x = pow(b, exp_clip(e));
    lemma_mod_bound(x, 1);
    lemma_mod_bound(-x, 1);
}

/// A negative exponent behaves exactly as the exponent zero: the loop never
/// runs and the result is one, reduced.
pub proof fn lemma_mod_exp_negative_exponent(b: int, e: int, m: int)
    requires
        e < 0,
        m >= 1,
    ensures
        mod_exp_spec(b, e, m) == mod_exp_spec(b, 0, m),
        mod_exp_spec(b, e, m) == rem_trunc(1, m),
{
    lemma_pow0(b);
}

/// Reducing the base before exponentiating changes nothing.
pub proof fn lemma_mod_exp_reduce_base(b: int, e: int, m: int)
    requires
        m >= 1,
    ensures
        mod_exp_spec(rem_trunc(b, m), e, m) == mod_exp_spec(b, e, m),
{
    let k = exp_clip(e);
    lemma_rem_trunc_pow(1, b, k, m);
    lemma_mul_basics(pow(rem_trunc(b, m), k));
    lemma_mul_basics(pow(b, k));
}

/// For a nonnegative base and exponent the result is the Euclidean
/// `pow(b, e) % m`, where `pow` is the naive repeated product.
pub proof fn lemma_mod_exp_nonneg(b: int, e: int, m: int)
    requires
        b >= 0,
        e >= 0,
        m >= 1,
    ensures
        mod_exp_spec(b, e, m) == pow(b, e as nat) % m,
{
    if b > 0 {
        lemma_pow_positive(b, e as nat);
    } else if e == 0 {
        lemma_pow0(b);
    } else {
        lemma0_pow(e as nat);
    }
}

} // verus!
