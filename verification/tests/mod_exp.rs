use mod_exp::{mod_exp, mod_exp_checked, ModExpError};

/// Naive reference: multiply `base` into an accumulator `exponent` times,
/// reducing only at the end, for cases small enough not to overflow.
fn naive_u64(base: u64, exponent: u64, modulus: u64) -> u64 {
    let mut acc: u64 = 1;
    let mut i: u64 = 0;
    while i < exponent {
        acc *= base;
        i += 1;
    }
    acc % modulus
}

fn naive_i64(base: i64, exponent: i64, modulus: i64) -> i64 {
    let mut acc: i64 = 1;
    let mut i: i64 = 0;
    while i < exponent {
        acc *= base;
        i += 1;
    }
    acc % modulus
}

#[test]
fn test_mod_exp() {
    let base = 4i64;
    let exponent = 13i64;
    let modulus = 497i64;
    assert_eq!(mod_exp(base, exponent, modulus), 445i64);
}

#[test]
fn small_cube() {
    assert_eq!(mod_exp(5u64, 3u64, 13u64), 8u64);
    assert_eq!(mod_exp(5u32, 3u32, 13u32), 8u32);
    assert_eq!(mod_exp(5u16, 3u16, 13u16), 8u16);
    assert_eq!(mod_exp(5u8, 3u8, 13u8), 8u8);
    assert_eq!(mod_exp(5u128, 3u128, 13u128), 8u128);
    assert_eq!(mod_exp(5i32, 3i32, 13i32), 8i32);
    assert_eq!(mod_exp(5i64, 3i64, 13i64), 8i64);
}

#[test]
fn matches_naive_unsigned() {
    for base in 0u64..8 {
        for exponent in 0u64..8 {
            for modulus in 1u64..12 {
                assert_eq!(
                    mod_exp(base, exponent, modulus),
                    naive_u64(base, exponent, modulus),
                    "base {} exponent {} modulus {}",
                    base,
                    exponent,
                    modulus
                );
            }
        }
    }
}

#[test]
fn matches_naive_signed() {
    for base in -8i64..8 {
        for exponent in 0i64..8 {
            for modulus in 1i64..12 {
                assert_eq!(
                    mod_exp(base, exponent, modulus),
                    naive_i64(base, exponent, modulus),
                    "base {} exponent {} modulus {}",
                    base,
                    exponent,
                    modulus
                );
            }
        }
    }
}

#[test]
fn zero_exponent_is_one_reduced() {
    assert_eq!(mod_exp(7u32, 0u32, 10u32), 1u32);
    assert_eq!(mod_exp(0u8, 0u8, 5u8), 1u8);
    assert_eq!(mod_exp(123u64, 0u64, 1000u64), 1u64);
    // Modulus one reduces even the empty product to zero.
    assert_eq!(mod_exp(9i64, 0i64, 1i64), 0i64);
}

#[test]
fn modulus_one_gives_zero() {
    assert_eq!(mod_exp(10u64, 20u64, 1u64), 0u64);
    assert_eq!(mod_exp(0u8, 0u8, 1u8), 0u8);
    assert_eq!(mod_exp(-7i64, 5i64, 1i64), 0i64);
    assert_eq!(mod_exp(3i64, -2i64, 1i64), 0i64);
}

#[test]
fn negative_exponent_acts_as_zero() {
    assert_eq!(mod_exp(5i64, -3i64, 13i64), mod_exp(5i64, 0i64, 13i64));
    assert_eq!(mod_exp(5i64, -3i64, 13i64), 1i64);
    assert_eq!(mod_exp(-4i64, -1i64, 9i64), 1i64);
}

#[test]
fn reduced_base_gives_same_result() {
    for base in 0u64..40 {
        for exponent in 0u64..10 {
            for modulus in 1u64..9 {
                assert_eq!(
                    mod_exp(base % modulus, exponent, modulus),
                    mod_exp(base, exponent, modulus),
                    "base {} exponent {} modulus {}",
                    base,
                    exponent,
                    modulus
                );
            }
        }
    }
}

#[test]
fn negative_base_keeps_truncated_sign() {
    // (-5)^3 = -125 and -125 % 13 == -8 under Rust's truncating remainder.
    assert_eq!(mod_exp(-5i64, 3i64, 13i64), -8i64);
    // An even exponent makes the power positive again.
    assert_eq!(mod_exp(-5i64, 2i64, 13i64), 12i64);
}

#[test]
fn guard_rejects_wide_modulus_on_narrow_type() {
    // (254 - 1) * (254 - 1) does not fit in a u8, so the computation is
    // refused up front, whatever the base: the guard looks at the modulus
    // and the type alone.
    assert_eq!(
        mod_exp_checked(1u8, 1u8, 254u8),
        Err(ModExpError::PreconditionViolation)
    );
}

#[test]
fn guard_boundary_on_u8() {
    // The guard passes exactly while modulus * (modulus - 1) fits:
    // 16 * 15 == 240 <= 255, but 17 * 16 == 272 > 255.
    assert_eq!(mod_exp_checked(3u8, 10u8, 16u8), Ok(mod_exp(3u8, 10u8, 16u8)));
    assert_eq!(
        mod_exp_checked(3u8, 10u8, 17u8),
        Err(ModExpError::PreconditionViolation)
    );
}

#[test]
fn checked_agrees_with_unchecked() {
    assert_eq!(mod_exp_checked(4i64, 13i64, 497i64), Ok(445i64));
    assert_eq!(mod_exp_checked(10u64, 20u64, 1u64), Ok(0u64));
    assert_eq!(mod_exp_checked(5u32, 3u32, 13u32), Ok(8u32));
}

#[test]
fn large_operands_u64() {
    // 2^62 bit pattern exercises many squarings; modulus small enough for
    // the guard yet large enough to leave a nontrivial residue.
    assert_eq!(mod_exp(2u64, 62u64, 1_000_003u64), naive_large(2, 62, 1_000_003));
    assert_eq!(mod_exp(7u64, 31u64, 97u64), naive_large(7, 31, 97));
}

/// Reference for exponents whose unreduced power would overflow: reduce
/// after every multiplication, linearly.
fn naive_large(base: u64, exponent: u64, modulus: u64) -> u64 {
    let mut acc: u64 = 1 % modulus;
    let b: u64 = base % modulus;
    let mut i: u64 = 0;
    while i < exponent {
        acc = (acc * b) % modulus;
        i += 1;
    }
    acc
}
