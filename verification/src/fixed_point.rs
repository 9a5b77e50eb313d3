//! Fixed-point numbers in the formats the driver computes with.
//!
//! `Q32` holds the raw bits of a `fixed::types::I32F32` (32 integer and 32
//! fractional bits); `Q16` holds the raw bits of a `fixed::types::I16F16`.
//! Multiplication, division, square roots and shifts are computed by the
//! `fixed` crate; their results are stated exactly over the raw bits.

use vstd::prelude::*;
use fixed::types::{I16F16, I32F32, U64F64};

verus! {

/// 2^32, the scale of a `Q32`.
pub open spec fn q32_one() -> int {
    0x1_0000_0000
}

/// 2^16, the scale of a `Q16`.
pub open spec fn q16_one() -> int {
    0x1_0000
}

pub open spec fn fits_i64(x: int) -> bool {
    i64::MIN <= x <= i64::MAX
}

pub open spec fn fits_i32(x: int) -> bool {
    i32::MIN <= x <= i32::MAX
}

/// Division rounded towards zero, as Rust's integer division does.
pub open spec fn trunc_div(a: int, b: int) -> int {
    if a >= 0 {
        if b > 0 { a / b } else { -(a / (-b)) }
    } else {
        if b > 0 { -((-a) / b) } else { (-a) / (-b) }
    }
}

/// Raw bits of the `Q32` product of two `Q32` values: the exact product
/// rounded towards negative infinity.
pub open spec fn mul_bits(a: int, b: int) -> int {
    (a * b) / q32_one()
}

/// Raw bits of the `Q32` quotient of two `Q32` values: rounded towards zero.
pub open spec fn div_bits(a: int, b: int) -> int {
    trunc_div(a * q32_one(), b)
}

pub open spec fn abs_int(x: int) -> int {
    if x < 0 { -x } else { x }
}

pub open spec fn min_int(a: int, b: int) -> int {
    if a <= b { a } else { b }
}

pub open spec fn max_int(a: int, b: int) -> int {
    if a >= b { a } else { b }
}

/// `r` is the square root of `x` rounded down.
pub open spec fn is_sqrt_floor(x: int, r: int) -> bool {
    r >= 0 && r * r <= x < (r + 1) * (r + 1)
}

/// The square root of `x` rounded down (for `x >= 0`).
pub open spec fn sqrt_floor(x: int) -> int {
    choose|r: int| is_sqrt_floor(x, r)
}

/// Every non-negative integer has a rounded-down square root.
pub proof fn lemma_sqrt_floor_exists(x: int)
    requires
        x >= 0,
    ensures
        is_sqrt_floor(x, sqrt_floor(x)),
    decreases x,
{
    if x == 0 {
        assert(is_sqrt_floor(0, 0));
    } else {
        lemma_sqrt_floor_exists(x - 1);
        let r = sqrt_floor(x - 1);
        if (r + 1) * (r + 1) <= x {
            assert((r + 2) * (r + 2) == (r + 1) * (r + 1) + 2 * r + 3) by (nonlinear_arith);
            assert(is_sqrt_floor(x, r + 1));
        } else {
            assert(is_sqrt_floor(x, r));
        }
    }
}

/// The rounded-down square root is unique.
pub proof fn lemma_sqrt_floor_unique(x: int, r: int)
    requires
        is_sqrt_floor(x, r),
    ensures
        sqrt_floor(x) == r,
{
    let c = sqrt_floor(x);
    assert(is_sqrt_floor(x, c));
    if c < r {
        assert((c + 1) * (c + 1) <= r * r) by (nonlinear_arith)
            requires c >= 0, c + 1 <= r;
    } else if c > r {
        assert((r + 1) * (r + 1) <= c * c) by (nonlinear_arith)
            requires r >= 0, r + 1 <= c;
    }
}

/// A signed fixed-point number with 32 fractional bits; its value is
/// `bits / 2^32`.
#[derive(Clone, Copy, Debug, PartialEq, Eq, Structural)]
pub struct Q32 {
    pub bits: i64,
}

/// A signed fixed-point number with 16 fractional bits; its value is
/// `bits / 2^16`.
#[derive(Clone, Copy, Debug, PartialEq, Eq, Structural)]
pub struct Q16 {
    pub bits: i32,
}

/// `I32F32 * I32F32` of the `fixed` crate on raw bits: the exact product
/// shifted down by 32 bits (rounded towards negative infinity). The
/// operator panics on overflow when debug assertions are on, so the
/// product must be representable.
#[verifier::external_body]
fn i32f32_mul(a: i64, b: i64) -> (r: i64)
    requires
        fits_i64(mul_bits(a as int, b as int)),
    ensures
        r == mul_bits(a as int, b as int),
{
    (I32F32::from_bits(a) * I32F32::from_bits(b)).to_bits()
}

/// `I32F32::checked_mul` of the `fixed` crate on raw bits: the product
/// rounded towards negative infinity, or `None` when it does not fit.
#[verifier::external_body]
fn i32f32_checked_mul(a: i64, b: i64) -> (r: Option<i64>)
    ensures
        r == (if fits_i64(mul_bits(a as int, b as int)) {
            Some(mul_bits(a as int, b as int) as i64)
        } else {
            None
        }),
{
    match I32F32::from_bits(a).checked_mul(I32F32::from_bits(b)) {
        Some(v) => Some(v.to_bits()),
        None => None,
    }
}

/// `I32F32::checked_div` of the `fixed` crate on raw bits: the dividend
/// shifted up by 32 bits and divided with truncation towards zero, or `None`
/// for a zero divisor or a quotient that does not fit.
#[verifier::external_body]
fn i32f32_checked_div(a: i64, b: i64) -> (r: Option<i64>)
    ensures
        r == (if b != 0 && fits_i64(div_bits(a as int, b as int)) {
            Some(div_bits(a as int, b as int) as i64)
        } else {
            None
        }),
{
    match I32F32::from_bits(a).checked_div(I32F32::from_bits(b)) {
        Some(v) => Some(v.to_bits()),
        None => None,
    }
}

/// `I32F32 / I32F32` of the `fixed` crate on raw bits, rounded towards
/// zero. The operator panics on a zero divisor, and on overflow when debug
/// assertions are on.
#[verifier::external_body]
fn i32f32_div(a: i64, b: i64) -> (r: i64)
    requires
        b != 0,
        fits_i64(div_bits(a as int, b as int)),
    ensures
        r == div_bits(a as int, b as int),
{
    (I32F32::from_bits(a) / I32F32::from_bits(b)).to_bits()
}


/// `I32F32::sqrt` of the `fixed` crate on raw bits: the square root rounded
/// down to a multiple of 2^-32, so `r^2 <= a * 2^32 < (r + 1)^2`. It panics
/// on a negative input.
#[verifier::external_body]
fn i32f32_sqrt(a: i64) -> (r: i64)
    requires
        a >= 0,
    ensures
        r >= 0,
        r * r <= a * q32_one() < (r + 1) * (r + 1),
{
    I32F32::from_bits(a).sqrt().to_bits()
}

/// `I16F16::from_num` of an `I32F32` (`fixed` crate): the 16 lowest
/// fractional bits are dropped (rounding towards negative infinity); it
/// panics when the value does not fit.
#[verifier::external_body]
fn i32f32_to_i16f16(a: i64) -> (r: i32)
    requires
        fits_i32((a as int) / q16_one()),
    ensures
        r == (a as int) / q16_one(),
{
    I16F16::from_num(I32F32::from_bits(a)).to_bits()
}

/// `I32F32::to_num::<i32>` of the `fixed` crate: the integer part rounded
/// towards negative infinity; it panics when the value does not fit.
#[verifier::external_body]
fn i32f32_to_i32(a: i64) -> (r: i32)
    requires
        fits_i32((a as int) / q32_one()),
    ensures
        r == (a as int) / q32_one(),
{
    I32F32::from_bits(a).to_num::<i32>()
}

/// `I16F16 >> n` of the `fixed` crate: an arithmetic shift of the raw bits,
/// i.e. division by 2^n rounded towards negative infinity (the shift amount
/// must be below 32).
#[verifier::external_body]
fn i16f16_shr(a: i32, n: u32) -> (r: i32)
    requires
        n < 32,
    ensures
        r == (a as int) / (vstd::arithmetic::power2::pow2(n as nat) as int),
{
    (I16F16::from_bits(a) >> n).to_bits()
}

/// `U64F64::from_num(active) / U64F64::from_num(period)` converted with
/// `to_num::<I32F32>()` (`fixed` crate): the quotient truncated to 64 and
/// then 32 fractional bits, i.e. `active * 2^32 / period` rounded down. The
/// division panics on a zero period; a ratio at most 1 always fits.
#[verifier::external_body]
fn ticks_ratio(active: u64, period: u64) -> (r: i64)
    requires
        0 < period,
        active <= period,
    ensures
        r == (active as int * q32_one()) / (period as int),
{
    (U64F64::from_num(active) / U64F64::from_num(period)).to_num::<I32F32>().to_bits()
}

impl Q32 {
    /// The number with the given raw bits.
    pub fn from_bits(bits: i64) -> (r: Q32)
        ensures
            r.bits == bits,
    {
        Q32 { bits }
    }

    /// The whole number `n`.
    pub fn from_int(n: i32) -> (r: Q32)
        ensures
            r.bits == n * q32_one(),
    {
        Q32 { bits: n as i64 * 0x1_0000_0000i64 }
    }

    /// The whole number `n`, which must be representable.
    pub fn from_u32(n: u32) -> (r: Q32)
        requires
            n <= i32::MAX,
        ensures
            r.bits == n * q32_one(),
    {
        Q32 { bits: n as i64 * 0x1_0000_0000i64 }
    }

    pub fn add(self, rhs: Q32) -> (r: Q32)
        requires
            fits_i64(self.bits + rhs.bits),
        ensures
            r.bits == self.bits + rhs.bits,
    {
        Q32 { bits: self.bits + rhs.bits }
    }

    pub fn sub(self, rhs: Q32) -> (r: Q32)
        requires
            fits_i64(self.bits - rhs.bits),
        ensures
            r.bits == self.bits - rhs.bits,
    {
        Q32 { bits: self.bits - rhs.bits }
    }

    /// Product, rounded towards negative infinity (computed by `fixed`).
    pub fn mul(self, rhs: Q32) -> (r: Q32)
        requires
            fits_i64(mul_bits(self.bits as int, rhs.bits as int)),
        ensures
            r.bits == mul_bits(self.bits as int, rhs.bits as int),
    {
        Q32 { bits: i32f32_mul(self.bits, rhs.bits) }
    }

    /// Product, or `None` when it is not representable (computed by `fixed`).
    pub fn checked_mul(self, rhs: Q32) -> (r: Option<Q32>)
        ensures
            r == (if fits_i64(mul_bits(self.bits as int, rhs.bits as int)) {
                Some(Q32 { bits: mul_bits(self.bits as int, rhs.bits as int) as i64 })
            } else {
                None
            }),
    {
        match i32f32_checked_mul(self.bits, rhs.bits) {
            Some(bits) => Some(Q32 { bits }),
            None => None,
        }
    }

    /// Quotient, or `None` when the divisor is zero or the quotient is not
    /// representable (computed by `fixed`).
    pub fn checked_div(self, rhs: Q32) -> (r: Option<Q32>)
        ensures
            r == (if rhs.bits != 0 && fits_i64(div_bits(self.bits as int, rhs.bits as int)) {
                Some(Q32 { bits: div_bits(self.bits as int, rhs.bits as int) as i64 })
            } else {
                None
            }),
    {
        match i32f32_checked_div(self.bits, rhs.bits) {
            Some(bits) => Some(Q32 { bits }),
            None => None,
        }
    }

    /// Sum, or `None` when it is not representable.
    pub fn checked_add(self, rhs: Q32) -> (r: Option<Q32>)
        ensures
            r == (if fits_i64(self.bits + rhs.bits) {
                Some(Q32 { bits: (self.bits + rhs.bits) as i64 })
            } else {
                None
            }),
    {
        match self.bits.checked_add(rhs.bits) {
            Some(bits) => Some(Q32 { bits }),
            None => None,
        }
    }

    /// Difference, or `None` when it is not representable.
    pub fn checked_sub(self, rhs: Q32) -> (r: Option<Q32>)
        ensures
            r == (if fits_i64(self.bits - rhs.bits) {
                Some(Q32 { bits: (self.bits - rhs.bits) as i64 })
            } else {
                None
            }),
    {
        match self.bits.checked_sub(rhs.bits) {
            Some(bits) => Some(Q32 { bits }),
            None => None,
        }
    }

    /// Quotient, rounded towards zero (computed by `fixed`).
    pub fn div(self, rhs: Q32) -> (r: Q32)
        requires
            rhs.bits != 0,
            fits_i64(div_bits(self.bits as int, rhs.bits as int)),
        ensures
            r.bits == div_bits(self.bits as int, rhs.bits as int),
    {
        Q32 { bits: i32f32_div(self.bits, rhs.bits) }
    }

    pub fn abs(self) -> (r: Q32)
        requires
            self.bits != i64::MIN,
        ensures
            r.bits == if self.bits < 0 { -self.bits } else { self.bits as int },
    {
        if self.bits < 0 { Q32 { bits: -self.bits } } else { self }
    }

    /// Square root rounded down (computed by `fixed`).
    pub fn sqrt(self) -> (r: Q32)
        requires
            self.bits >= 0,
        ensures
            r.bits == sqrt_floor(self.bits * q32_one()),
            is_sqrt_floor(self.bits * q32_one(), r.bits as int),
    {
        let bits = i32f32_sqrt(self.bits);
        proof {
            lemma_sqrt_floor_unique(self.bits * q32_one(), bits as int);
        }
        Q32 { bits }
    }

    /// Conversion to 16 fractional bits; extra bits are discarded (rounding
    /// towards negative infinity).
    pub fn to_q16(self) -> (r: Q16)
        requires
            fits_i32((self.bits as int) / q16_one()),
        ensures
            r.bits == (self.bits as int) / q16_one(),
    {
        Q16 { bits: i32f32_to_i16f16(self.bits) }
    }

    /// The integer part, rounded towards negative infinity.
    pub fn floor_to_i32(self) -> (r: i32)
        requires
            fits_i32((self.bits as int) / q32_one()),
        ensures
            r == (self.bits as int) / q32_one(),
    {
        i32f32_to_i32(self.bits)
    }

    /// `active / period` with 32 fractional bits, rounded down.
    pub fn ratio(active: u64, period: u64) -> (r: Q32)
        requires
            0 < period,
            active <= period,
        ensures
            r.bits == (active as int * q32_one()) / (period as int),
            0 <= r.bits <= q32_one(),
    {
        let bits = ticks_ratio(active, period);
        proof {
            vstd::arithmetic::div_mod::lemma_div_is_ordered(
                active as int * q32_one(), period as int * q32_one(), period as int);
            vstd::arithmetic::div_mod::lemma_div_multiples_vanish(q32_one(), period as int);
            assert(active as int * q32_one() <= period as int * q32_one()) by (nonlinear_arith)
                requires active <= period;
            assert(period as int * q32_one() == q32_one() * period as int) by (nonlinear_arith);
        }
        Q32 { bits }
    }
}

impl Q16 {
    pub fn from_bits(bits: i32) -> (r: Q16)
        ensures
            r.bits == bits,
    {
        Q16 { bits }
    }

    /// The same number with 32 fractional bits (exact).
    pub fn to_q32(self) -> (r: Q32)
        ensures
            r.bits == self.bits * q16_one(),
    {
        Q32 { bits: self.bits as i64 * 0x1_0000i64 }
    }

    pub fn add(self, rhs: Q16) -> (r: Q16)
        requires
            fits_i32(self.bits + rhs.bits),
        ensures
            r.bits == self.bits + rhs.bits,
    {
        Q16 { bits: self.bits + rhs.bits }
    }

    pub fn sub(self, rhs: Q16) -> (r: Q16)
        requires
            fits_i32(self.bits - rhs.bits),
        ensures
            r.bits == self.bits - rhs.bits,
    {
        Q16 { bits: self.bits - rhs.bits }
    }

    /// Arithmetic right shift of the raw bits (computed by `fixed`):
    /// division by `2^n` rounded towards negative infinity.
    pub fn shr(self, n: u32) -> (r: Q16)
        requires
            n < 32,
        ensures
            r.bits == (self.bits as int) / (vstd::arithmetic::power2::pow2(n as nat) as int),
    {
        Q16 { bits: i16f16_shr(self.bits, n) }
    }
}

} // verus!
