//! The capability set a matrix element type must supply: the two identities
//! and the four arithmetic operations, each with a specification-level
//! counterpart, plus the identity laws the matrix algebra relies on.

use vstd::arithmetic::div_mod::{
    lemma_div_is_ordered, lemma_div_is_ordered_by_denominator, lemma_div_is_strictly_smaller,
    lemma_div_nonincreasing, lemma_div_pos_is_pos,
};
use vstd::prelude::*;

verus! {

/// A scalar-like element type.
///
/// Each executable operation is described by a specification function
/// (`sp_add` for `add`, and so on) together with a predicate (`add_ok`)
/// naming exactly the inputs on which the operation is defined: outside
/// them a machine integer would overflow or a division would be undefined.
/// The `lemma_` obligations pin down that `sp_zero` really is an additive
/// identity and `sp_one` a multiplicative one, and that zero annihilates
/// under multiplication; matrix laws such as multiplication by the
/// identity matrix rest on them.
pub trait Scalar: Copy + core::fmt::Debug + Sized {
    /// The additive identity, as a specification-level value.
    spec fn sp_zero() -> Self;

    /// The multiplicative identity, as a specification-level value.
    spec fn sp_one() -> Self;

    /// Whether `self + rhs` is defined (no overflow).
    spec fn add_ok(self, rhs: Self) -> bool;

    /// The value of `self + rhs`, meaningful when `add_ok` holds.
    spec fn sp_add(self, rhs: Self) -> Self;

    /// Whether `self - rhs` is defined (no overflow).
    spec fn sub_ok(self, rhs: Self) -> bool;

    /// The value of `self - rhs`, meaningful when `sub_ok` holds.
    spec fn sp_sub(self, rhs: Self) -> Self;

    /// Whether `self * rhs` is defined (no overflow).
    spec fn mul_ok(self, rhs: Self) -> bool;

    /// The value of `self * rhs`, meaningful when `mul_ok` holds.
    spec fn sp_mul(self, rhs: Self) -> Self;

    /// Whether `self / rhs` is defined (divisor usable, no overflow).
    spec fn div_ok(self, rhs: Self) -> bool;

    /// The value of `self / rhs`, meaningful when `div_ok` holds.
    spec fn sp_div(self, rhs: Self) -> Self;

    /// The additive identity.
    fn zero() -> (r: Self)
        ensures
            r == Self::sp_zero(),
    ;

    /// The multiplicative identity.
    fn one() -> (r: Self)
        ensures
            r == Self::sp_one(),
    ;

    /// Addition.
    fn add(self, rhs: Self) -> (r: Self)
        requires
            self.add_ok(rhs),
        ensures
            r == self.sp_add(rhs),
    ;

    /// Subtraction.
    fn sub(self, rhs: Self) -> (r: Self)
        requires
            self.sub_ok(rhs),
        ensures
            r == self.sp_sub(rhs),
    ;

    /// Multiplication.
    fn mul(self, rhs: Self) -> (r: Self)
        requires
            self.mul_ok(rhs),
        ensures
            r == self.sp_mul(rhs),
    ;

    /// Division, following the type's own division semantics.
    fn div(self, rhs: Self) -> (r: Self)
        requires
            self.div_ok(rhs),
        ensures
            r == self.sp_div(rhs),
    ;

    /// Adding the additive identity on the right changes nothing.
    proof fn lemma_add_zero(x: Self)
        ensures
            x.add_ok(Self::sp_zero()),
            x.sp_add(Self::sp_zero()) == x,
    ;

    /// Adding the additive identity on the left changes nothing.
    proof fn lemma_zero_add(x: Self)
        ensures
            Self::sp_zero().add_ok(x),
            Self::sp_zero().sp_add(x) == x,
    ;

    /// Multiplying by the multiplicative identity on the right changes nothing.
    proof fn lemma_mul_one(x: Self)
        ensures
            x.mul_ok(Self::sp_one()),
            x.sp_mul(Self::sp_one()) == x,
    ;

    /// Multiplying by the multiplicative identity on the left changes nothing.
    proof fn lemma_one_mul(x: Self)
        ensures
            Self::sp_one().mul_ok(x),
            Self::sp_one().sp_mul(x) == x,
    ;

    /// Multiplying by the additive identity on the right yields it back.
    proof fn lemma_mul_zero(x: Self)
        ensures
            x.mul_ok(Self::sp_zero()),
            x.sp_mul(Self::sp_zero()) == Self::sp_zero(),
    ;

    /// Multiplying by the additive identity on the left yields it back.
    proof fn lemma_zero_mul(x: Self)
        ensures
            Self::sp_zero().mul_ok(x),
            Self::sp_zero().sp_mul(x) == Self::sp_zero(),
    ;
}

/// Truncating division of `x` by `d`, the way machine integers divide:
/// the quotient is rounded toward zero.
pub open spec fn trunc_div(x: int, d: int) -> int {
    if x == 0 {
        0
    } else if x > 0 && d > 0 {
        x / d
    } else if x < 0 && d < 0 {
        (x * -1) / (d * -1)
    } else if x < 0 {
        ((x * -1) / d) * -1
    } else {
        (x / (d * -1)) * -1
    }
}

/// For a two's-complement range `[min, max]` with `min == -max - 1`, the
/// truncating quotient stays in range whenever the divisor is nonzero and
/// the pair is not `min / -1`.
proof fn lemma_trunc_div_in_range(x: int, d: int, min: int, max: int)
    requires
        1 <= max,
        min == -max - 1,
        min <= x <= max,
        d != 0,
        !(x == min && d == -1),
    ensures
        min <= trunc_div(x, d) <= max,
{
    if x == 0 {
    } else if x > 0 && d > 0 {
        lemma_div_pos_is_pos(x, d);
        lemma_div_nonincreasing(x, d);
    } else if x < 0 && d < 0 {
        let a = x * -1;
        let b = d * -1;
        lemma_div_pos_is_pos(a, b);
        if b == 1 {
            assert(x != min);
            lemma_div_nonincreasing(a, b);
        } else {
            lemma_div_is_ordered_by_denominator(a, 2, b);
            lemma_div_is_ordered(a, max + 1, 2);
            lemma_div_is_strictly_smaller(max + 1, 2);
        }
    } else if x < 0 {
        let a = x * -1;
        lemma_div_pos_is_pos(a, d);
        lemma_div_nonincreasing(a, d);
    } else {
        let b = d * -1;
        lemma_div_pos_is_pos(x, b);
        lemma_div_nonincreasing(x, b);
    }
}

impl Scalar for i32 {
    open spec fn sp_zero() -> i32 {
        0
    }

    open spec fn sp_one() -> i32 {
        1
    }

    open spec fn add_ok(self, rhs: i32) -> bool {
        i32::MIN <= self + rhs <= i32::MAX
    }

    open spec fn sp_add(self, rhs: i32) -> i32 {
        (self + rhs) as i32
    }

    open spec fn sub_ok(self, rhs: i32) -> bool {
        i32::MIN <= self - rhs <= i32::MAX
    }

    open spec fn sp_sub(self, rhs: i32) -> i32 {
        (self - rhs) as i32
    }

    open spec fn mul_ok(self, rhs: i32) -> bool {
        i32::MIN <= self * rhs <= i32::MAX
    }

    open spec fn sp_mul(self, rhs: i32) -> i32 {
        (self * rhs) as i32
    }

    open spec fn div_ok(self, rhs: i32) -> bool {
        rhs != 0 && !(self == i32::MIN && rhs == -1)
    }

    open spec fn sp_div(self, rhs: i32) -> i32 {
        trunc_div(self as int, rhs as int) as i32
    }

    fn zero() -> (r: i32) {
        0
    }

    fn one() -> (r: i32) {
        1
    }

    fn add(self, rhs: i32) -> (r: i32) {
        self + rhs
    }

    fn sub(self, rhs: i32) -> (r: i32) {
        self - rhs
    }

    fn mul(self, rhs: i32) -> (r: i32) {
        self * rhs
    }

    fn div(self, rhs: i32) -> (r: i32) {
        proof {
            lemma_trunc_div_in_range(self as int, rhs as int, i32::MIN as int, i32::MAX as int);
        }
        match self.checked_div(rhs) {
            Some(v) => v,
            None => 0,
        }
    }

    proof fn lemma_add_zero(x: i32) {
    }

    proof fn lemma_zero_add(x: i32) {
    }

    proof fn lemma_mul_one(x: i32) {
    }

    proof fn lemma_one_mul(x: i32) {
    }

    proof fn lemma_mul_zero(x: i32) {
    }

    proof fn lemma_zero_mul(x: i32) {
    }
}

impl Scalar for i64 {
    open spec fn sp_zero() -> i64 {
        0
    }

    open spec fn sp_one() -> i64 {
        1
    }

    open spec fn add_ok(self, rhs: i64) -> bool {
        i64::MIN <= self + rhs <= i64::MAX
    }

    open spec fn sp_add(self, rhs: i64) -> i64 {
        (self + rhs) as i64
    }

    open spec fn sub_ok(self, rhs: i64) -> bool {
        i64::MIN <= self - rhs <= i64::MAX
    }

    open spec fn sp_sub(self, rhs: i64) -> i64 {
        (self - rhs) as i64
    }

    open spec fn mul_ok(self, rhs: i64) -> bool {
        i64::MIN <= self * rhs <= i64::MAX
    }

    open spec fn sp_mul(self, rhs: i64) -> i64 {
        (self * rhs) as i64
    }

    open spec fn div_ok(self, rhs: i64) -> bool {
        rhs != 0 && !(self == i64::MIN && rhs == -1)
    }

    open spec fn sp_div(self, rhs: i64) -> i64 {
        trunc_div(self as int, rhs as int) as i64
    }

    fn zero() -> (r: i64) {
        0
    }

    fn one() -> (r: i64) {
        1
    }

    fn add(self, rhs: i64) -> (r: i64) {
        self + rhs
    }

    fn sub(self, rhs: i64) -> (r: i64) {
        self - rhs
    }

    fn mul(self, rhs: i64) -> (r: i64) {
        self * rhs
    }

    fn div(self, rhs: i64) -> (r: i64) {
        proof {
            lemma_trunc_div_in_range(self as int, rhs as int, i64::MIN as int, i64::MAX as int);
        }
        match self.checked_div(rhs) {
            Some(v) => v,
            None => 0,
        }
    }

    proof fn lemma_add_zero(x: i64) {
    }

    proof fn lemma_zero_add(x: i64) {
    }

    proof fn lemma_mul_one(x: i64) {
    }

    proof fn lemma_one_mul(x: i64) {
    }

    proof fn lemma_mul_zero(x: i64) {
    }

    proof fn lemma_zero_mul(x: i64) {
    }
}

impl Scalar for u32 {
    open spec fn sp_zero() -> u32 {
        0
    }

    open spec fn sp_one() -> u32 {
        1
    }

    open spec fn add_ok(self, rhs: u32) -> bool {
        self + rhs <= u32::MAX
    }

    open spec fn sp_add(self, rhs: u32) -> u32 {
        (self + rhs) as u32
    }

    open spec fn sub_ok(self, rhs: u32) -> bool {
        self - rhs >= 0
    }

    open spec fn sp_sub(self, rhs: u32) -> u32 {
        (self - rhs) as u32
    }

    open spec fn mul_ok(self, rhs: u32) -> bool {
        self * rhs <= u32::MAX
    }

    open spec fn sp_mul(self, rhs: u32) -> u32 {
        (self * rhs) as u32
    }

    open spec fn div_ok(self, rhs: u32) -> bool {
        rhs != 0
    }

    open spec fn sp_div(self, rhs: u32) -> u32 {
        (self as int / rhs as int) as u32
    }

    fn zero() -> (r: u32) {
        0
    }

    fn one() -> (r: u32) {
        1
    }

    fn add(self, rhs: u32) -> (r: u32) {
        self + rhs
    }

    fn sub(self, rhs: u32) -> (r: u32) {
        self - rhs
    }

    fn mul(self, rhs: u32) -> (r: u32) {
        self * rhs
    }

    fn div(self, rhs: u32) -> (r: u32) {
        proof {
            lemma_div_pos_is_pos(self as int, rhs as int);
            lemma_div_nonincreasing(self as int, rhs as int);
        }
        self / rhs
    }

    proof fn lemma_add_zero(x: u32) {
    }

    proof fn lemma_zero_add(x: u32) {
    }

    proof fn lemma_mul_one(x: u32) {
    }

    proof fn lemma_one_mul(x: u32) {
    }

    proof fn lemma_mul_zero(x: u32) {
    }

    proof fn lemma_zero_mul(x: u32) {
    }
}

impl Scalar for u64 {
    open spec fn sp_zero() -> u64 {
        0
    }

    open spec fn sp_one() -> u64 {
        1
    }

    open spec fn add_ok(self, rhs: u64) -> bool {
        self + rhs <= u64::MAX
    }

    open spec fn sp_add(self, rhs: u64) -> u64 {
        (self + rhs) as u64
    }

    open spec fn sub_ok(self, rhs: u64) -> bool {
        self - rhs >= 0
    }

    open spec fn sp_sub(self, rhs: u64) -> u64 {
        (self - rhs) as u64
    }

    open spec fn mul_ok(self, rhs: u64) -> bool {
        self * rhs <= u64::MAX
    }

    open spec fn sp_mul(self, rhs: u64) -> u64 {
        (self * rhs) as u64
    }

    open spec fn div_ok(self, rhs: u64) -> bool {
        rhs != 0
    }

    open spec fn sp_div(self, rhs: u64) -> u64 {
        (self as int / rhs as int) as u64
    }

    fn zero() -> (r: u64) {
        0
    }

    fn one() -> (r: u64) {
        1
    }

    fn add(self, rhs: u64) -> (r: u64) {
        self + rhs
    }

    fn sub(self, rhs: u64) -> (r: u64) {
        self - rhs
    }

    fn mul(self, rhs: u64) -> (r: u64) {
        self * rhs
    }

    fn div(self, rhs: u64) -> (r: u64) {
        proof {
            lemma_div_pos_is_pos(self as int, rhs as int);
            lemma_div_nonincreasing(self as int, rhs as int);
        }
        self / rhs
    }

    proof fn lemma_add_zero(x: u64) {
    }

    proof fn lemma_zero_add(x: u64) {
    }

    proof fn lemma_mul_one(x: u64) {
    }

    proof fn lemma_one_mul(x: u64) {
    }

    proof fn lemma_mul_zero(x: u64) {
    }

    proof fn lemma_zero_mul(x: u64) {
    }
}

} // verus!
