//! The numeric capability set that modular exponentiation asks of its
//! operand type, and its implementations for concrete integer widths.
//!
//! The algorithm is generic over one fixed-width integer type that must
//! supply its identities, its extreme values, comparison, arithmetic, and a
//! right shift by one bit. Each method's contract speaks of the value's
//! mathematical image under [`ModExpInt::as_int`], so the algorithm is
//! verified once, independently of the width.

use vstd::prelude::*;
use crate::arith::rem_trunc;

verus! {

/// The minimal algebraic interface of a fixed-width integer type: additive
/// and multiplicative identities, the largest representable value, ordering,
/// addition, subtraction, multiplication, remainder, division, and a right
/// shift by one bit.
pub trait ModExpInt: Copy + Sized {
    /// The mathematical value.
    spec fn as_int(self) -> int;

    /// The largest representable value.
    spec fn max_int() -> int;

    /// The smallest representable value.
    spec fn min_int() -> int;

    /// Every value is representable; the range reaches from zero (or below)
    /// up to at least two; and a range that goes below zero goes down at
    /// least as far as `-max`.
    proof fn lemma_range(self)
        ensures
            Self::min_int() <= self.as_int() <= Self::max_int(),
            Self::min_int() <= 0,
            Self::max_int() >= 2,
            Self::min_int() == 0 || Self::min_int() <= -Self::max_int(),
    ;

    /// The additive identity.
    fn zero() -> (r: Self)
        ensures
            r.as_int() == 0,
    ;

    /// The multiplicative identity.
    fn one() -> (r: Self)
        ensures
            r.as_int() == 1,
    ;

    /// The largest representable value.
    fn max_value() -> (r: Self)
        ensures
            r.as_int() == Self::max_int(),
    ;

    /// Addition; the exact sum must be representable.
    fn plus(self, rhs: Self) -> (r: Self)
        requires
            Self::min_int() <= self.as_int() + rhs.as_int() <= Self::max_int(),
        ensures
            r.as_int() == self.as_int() + rhs.as_int(),
    ;

    /// Subtraction; the exact difference must be representable.
    fn minus(self, rhs: Self) -> (r: Self)
        requires
            Self::min_int() <= self.as_int() - rhs.as_int() <= Self::max_int(),
        ensures
            r.as_int() == self.as_int() - rhs.as_int(),
    ;

    /// Multiplication; the exact product must be representable.
    fn times(self, rhs: Self) -> (r: Self)
        requires
            Self::min_int() <= self.as_int() * rhs.as_int() <= Self::max_int(),
        ensures
            r.as_int() == self.as_int() * rhs.as_int(),
    ;

    /// Remainder by a positive divisor, truncating toward zero as Rust's `%`
    /// operator does.
    fn rem_by(self, rhs: Self) -> (r: Self)
        requires
            rhs.as_int() > 0,
        ensures
            r.as_int() == rem_trunc(self.as_int(), rhs.as_int()),
    ;

    /// Division of a nonnegative value by a positive one.
    fn div_by(self, rhs: Self) -> (r: Self)
        requires
            self.as_int() >= 0,
            rhs.as_int() > 0,
        ensures
            r.as_int() == self.as_int() / rhs.as_int(),
    ;

    /// Right shift of a nonnegative value by one bit: the low bit is
    /// discarded, halving the value.
    fn shr1(self) -> (r: Self)
        requires
            self.as_int() >= 0,
        ensures
            r.as_int() == self.as_int() / 2,
    ;

    /// Strict order.
    fn lt(self, rhs: Self) -> (r: bool)
        ensures
            r <==> self.as_int() < rhs.as_int(),
    ;

    /// Non-strict order.
    fn le(self, rhs: Self) -> (r: bool)
        ensures
            r <==> self.as_int() <= rhs.as_int(),
    ;

    /// Equality of values.
    fn eq_val(self, rhs: Self) -> (r: bool)
        ensures
            r <==> self.as_int() == rhs.as_int(),
    ;
}

impl ModExpInt for u8 {
    open spec fn as_int(self) -> int {
        self as int
    }

    open spec fn max_int() -> int {
        u8::MAX as int
    }

    open spec fn min_int() -> int {
        0
    }

    proof fn lemma_range(self) {
    }

    fn zero() -> u8 {
        0
    }

    fn one() -> u8 {
        1
    }

    fn max_value() -> u8 {
        u8::MAX
    }

    fn plus(self, rhs: u8) -> u8 {
        self + rhs
    }

    fn minus(self, rhs: u8) -> u8 {
        self - rhs
    }

    fn times(self, rhs: u8) -> u8 {
        self * rhs
    }

    fn rem_by(self, rhs: u8) -> u8 {
        self % rhs
    }

    fn div_by(self, rhs: u8) -> u8 {
        self / rhs
    }

    fn shr1(self) -> (r: u8) {
        proof {
            assert(self >> 1u8 == self / 2) by (bit_vector);
        }
        self >> 1u8
    }

    fn lt(self, rhs: u8) -> bool {
        self < rhs
    }

    fn le(self, rhs: u8) -> bool {
        self <= rhs
    }

    fn eq_val(self, rhs: u8) -> bool {
        self == rhs
    }
}

impl ModExpInt for u16 {
    open spec fn as_int(self) -> int {
        self as int
    }

    open spec fn max_int() -> int {
        u16::MAX as int
    }

    open spec fn min_int() -> int {
        0
    }

    proof fn lemma_range(self) {
    }

    fn zero() -> u16 {
        0
    }

    fn one() -> u16 {
        1
    }

    fn max_value() -> u16 {
        u16::MAX
    }

    fn plus(self, rhs: u16) -> u16 {
        self + rhs
    }

    fn minus(self, rhs: u16) -> u16 {
        self - rhs
    }

    fn times(self, rhs: u16) -> u16 {
        self * rhs
    }

    fn rem_by(self, rhs: u16) -> u16 {
        self % rhs
    }

    fn div_by(self, rhs: u16) -> u16 {
        self / rhs
    }

    fn shr1(self) -> (r: u16) {
        proof {
            assert(self >> 1u16 == self / 2) by (bit_vector);
        }
        self >> 1u16
    }

    fn lt(self, rhs: u16) -> bool {
        self < rhs
    }

    fn le(self, rhs: u16) -> bool {
        self <= rhs
    }

    fn eq_val(self, rhs: u16) -> bool {
        self == rhs
    }
}

impl ModExpInt for u32 {
    open spec fn as_int(self) -> int {
        self as int
    }

    open spec fn max_int() -> int {
        u32::MAX as int
    }

    open spec fn min_int() -> int {
        0
    }

    proof fn lemma_range(self) {
    }

    fn zero() -> u32 {
        0
    }

    fn one() -> u32 {
        1
    }

    fn max_value() -> u32 {
        u32::MAX
    }

    fn plus(self, rhs: u32) -> u32 {
        self + rhs
    }

    fn minus(self, rhs: u32) -> u32 {
        self - rhs
    }

    fn times(self, rhs: u32) -> u32 {
        self * rhs
    }

    fn rem_by(self, rhs: u32) -> u32 {
        self % rhs
    }

    fn div_by(self, rhs: u32) -> u32 {
        self / rhs
    }

    fn shr1(self) -> (r: u32) {
        proof {
            assert(self >> 1u32 == self / 2) by (bit_vector);
        }
        self >> 1u32
    }

    fn lt(self, rhs: u32) -> bool {
        self < rhs
    }

    fn le(self, rhs: u32) -> bool {
        self <= rhs
    }

    fn eq_val(self, rhs: u32) -> bool {
        self == rhs
    }
}

impl ModExpInt for u64 {
    open spec fn as_int(self) -> int {
        self as int
    }

    open spec fn max_int() -> int {
        u64::MAX as int
    }

    open spec fn min_int() -> int {
        0
    }

    proof fn lemma_range(self) {
    }

    fn zero() -> u64 {
        0
    }

    fn one() -> u64 {
        1
    }

    fn max_value() -> u64 {
        u64::MAX
    }

    fn plus(self, rhs: u64) -> u64 {
        self + rhs
    }

    fn minus(self, rhs: u64) -> u64 {
        self - rhs
    }

    fn times(self, rhs: u64) -> u64 {
        self * rhs
    }

    fn rem_by(self, rhs: u64) -> u64 {
        self % rhs
    }

    fn div_by(self, rhs: u64) -> u64 {
        self / rhs
    }

    fn shr1(self) -> (r: u64) {
        proof {
            assert(self >> 1u64 == self / 2) by (bit_vector);
        }
        self >> 1u64
    }

    fn lt(self, rhs: u64) -> bool {
        self < rhs
    }

    fn le(self, rhs: u64) -> bool {
        self <= rhs
    }

    fn eq_val(self, rhs: u64) -> bool {
        self == rhs
    }
}

impl ModExpInt for u128 {
    open spec fn as_int(self) -> int {
        self as int
    }

    open spec fn max_int() -> int {
        u128::MAX as int
    }

    open spec fn min_int() -> int {
        0
    }

    proof fn lemma_range(self) {
    }

    fn zero() -> u128 {
        0
    }

    fn one() -> u128 {
        1
    }

    fn max_value() -> u128 {
        u128::MAX
    }

    fn plus(self, rhs: u128) -> u128 {
        self + rhs
    }

    fn minus(self, rhs: u128) -> u128 {
        self - rhs
    }

    fn times(self, rhs: u128) -> u128 {
        self * rhs
    }

    fn rem_by(self, rhs: u128) -> u128 {
        self % rhs
    }

    fn div_by(self, rhs: u128) -> u128 {
        self / rhs
    }

    fn shr1(self) -> (r: u128) {
        proof {
            assert(self >> 1u128 == self / 2) by (bit_vector);
        }
        self >> 1u128
    }

    fn lt(self, rhs: u128) -> bool {
        self < rhs
    }

    fn le(self, rhs: u128) -> bool {
        self <= rhs
    }

    fn eq_val(self, rhs: u128) -> bool {
        self == rhs
    }
}

impl ModExpInt for i32 {
    open spec fn as_int(self) -> int {
        self as int
    }

    open spec fn max_int() -> int {
        i32::MAX as int
    }

    open spec fn min_int() -> int {
        i32::MIN as int
    }

    proof fn lemma_range(self) {
    }

    fn zero() -> i32 {
        0
    }

    fn one() -> i32 {
        1
    }

    fn max_value() -> i32 {
        i32::MAX
    }

    fn plus(self, rhs: i32) -> i32 {
        self + rhs
    }

    fn minus(self, rhs: i32) -> i32 {
        self - rhs
    }

    fn times(self, rhs: i32) -> i32 {
        self * rhs
    }

    fn rem_by(self, rhs: i32) -> i32 {
        self % rhs
    }

    fn div_by(self, rhs: i32) -> i32 {
        self / rhs
    }

    fn shr1(self) -> (r: i32) {
        proof {
            assert(self >= 0 ==> self >> 1i32 == self / 2i32) by (bit_vector);
        }
        self >> 1i32
    }

    fn lt(self, rhs: i32) -> bool {
        self < rhs
    }

    fn le(self, rhs: i32) -> bool {
        self <= rhs
    }

    fn eq_val(self, rhs: i32) -> bool {
        self == rhs
    }
}

impl ModExpInt for i64 {
    open spec fn as_int(self) -> int {
        self as int
    }

    open spec fn max_int() -> int {
        i64::MAX as int
    }

    open spec fn min_int() -> int {
        i64::MIN as int
    }

    proof fn lemma_range(self) {
    }

    fn zero() -> i64 {
        0
    }

    fn one() -> i64 {
        1
    }

    fn max_value() -> i64 {
        i64::MAX
    }

    fn plus(self, rhs: i64) -> i64 {
        self + rhs
    }

    fn minus(self, rhs: i64) -> i64 {
        self - rhs
    }

    fn times(self, rhs: i64) -> i64 {
        self * rhs
    }

    fn rem_by(self, rhs: i64) -> i64 {
        self % rhs
    }

    fn div_by(self, rhs: i64) -> i64 {
        self / rhs
    }

    fn shr1(self) -> (r: i64) {
        proof {
            assert(self >= 0 ==> self >> 1i64 == self / 2i64) by (bit_vector);
        }
        self >> 1i64
    }

    fn lt(self, rhs: i64) -> bool {
        self < rhs
    }

    fn le(self, rhs: i64) -> bool {
        self <= rhs
    }

    fn eq_val(self, rhs: i64) -> bool {
        self == rhs
    }
}

} // verus!
