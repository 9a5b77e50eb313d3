use fixed::types::I32F32;
use smt160_driver::SignalDecoder;

#[test]
fn test_exact_values() {
    // DC = 0.320 -> T = 0°C
    let res = I32F32::from_bits(SignalDecoder::decode(1000, 320).unwrap().bits);
    assert!(res.abs_diff(I32F32::from_num(0)) < I32F32::from_num(0.001));

    // DC = 0.4375 -> T = 25°C
    let res = I32F32::from_bits(SignalDecoder::decode(10000, 4375).unwrap().bits);
    assert!(res.abs_diff(I32F32::from_num(25)) < I32F32::from_num(0.001));
}
