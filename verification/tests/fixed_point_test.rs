use fixed::types::{I16F16, I32F32};
use smt160_driver::fixed_point::{Q16, Q32};

const ONE: i64 = 1 << 32;

#[test]
fn q32_mul_matches_fixed() {
    let a = Q32::from_bits(5 * ONE / 2);
    let b = Q32::from_bits(-3 * ONE / 2);
    assert_eq!(a.mul(b).bits, -15 * ONE / 4);
    assert_eq!(a.mul(b).bits, (I32F32::from_bits(a.bits) * I32F32::from_bits(b.bits)).to_bits());
    // Rounds towards negative infinity.
    assert_eq!(Q32::from_bits(-1).mul(Q32::from_bits(1)).bits, -1);
    assert_eq!(Q32::from_bits(1).mul(Q32::from_bits(1)).bits, 0);
}

#[test]
fn q32_checked_operations() {
    assert_eq!(Q32::from_int(3).checked_mul(Q32::from_int(4)), Some(Q32::from_int(12)));
    assert_eq!(Q32::from_bits(i64::MAX).checked_mul(Q32::from_int(2)), None);
    assert_eq!(Q32::from_int(1).checked_div(Q32::from_int(0)), None);
    assert_eq!(Q32::from_bits(i64::MAX).checked_div(Q32::from_bits(1)), None);
    assert_eq!(Q32::from_int(-1).checked_div(Q32::from_int(3)), Some(Q32::from_bits(-1431655765)));
    assert_eq!(Q32::from_bits(i64::MIN).checked_sub(Q32::from_bits(1)), None);
    assert_eq!(Q32::from_int(2).checked_sub(Q32::from_int(5)), Some(Q32::from_int(-3)));
}

#[test]
fn q32_div_rounds_towards_zero() {
    assert_eq!(Q32::from_int(-1).div(Q32::from_int(3)).bits, -1431655765);
    assert_eq!(Q32::from_int(1).div(Q32::from_int(3)).bits, 1431655765);
    assert_eq!(Q32::from_int(7).div(Q32::from_int(2)).bits, 7 * ONE / 2);
}

#[test]
fn q32_sqrt_and_conversions() {
    assert_eq!(Q32::from_int(2).sqrt().bits, 6074000999);
    assert_eq!(Q32::from_int(2).sqrt().bits, I32F32::from_num(2).sqrt().to_bits());
    assert_eq!(Q32::from_int(18).sqrt().bits, 18222002999);
    assert_eq!(Q32::from_int(0).sqrt().bits, 0);
    assert_eq!(Q32::from_bits(-ONE / 2).floor_to_i32(), -1);
    assert_eq!(Q32::from_bits(3 * ONE + 5).floor_to_i32(), 3);
    assert_eq!(Q32::from_bits(ONE + (1 << 16) + 7).to_q16(), Q16::from_bits((1 << 16) + 1));
    assert_eq!(Q32::from_bits(-1).to_q16(), Q16::from_bits(-1));
    assert_eq!(Q16::from_bits(-3).to_q32().bits, -3 << 16);
    assert_eq!(Q32::from_u32(7).bits, 7 * ONE);
    assert_eq!(Q32::from_bits(-5 * ONE).abs().bits, 5 * ONE);
}

#[test]
fn ratio_and_q16_shift() {
    assert_eq!(Q32::ratio(1, 3).bits, 1431655765);
    assert_eq!(Q32::ratio(3, 3).bits, ONE);
    assert_eq!(Q32::ratio(0, 3).bits, 0);
    assert_eq!(Q32::ratio(u64::MAX - 1, u64::MAX).bits, ONE - 1);
    assert_eq!(Q16::from_bits(-3).shr(1).bits, -2);
    assert_eq!(Q16::from_bits(-3).shr(1).bits, (I16F16::from_bits(-3) >> 1u32).to_bits());
    assert_eq!(Q16::from_bits(5).add(Q16::from_bits(6)).sub(Q16::from_bits(1)).bits, 10);
}
