use smt160_driver::conversion::{
    bytes_to_i16f16, flash_half_word, i16f16_to_bytes, i32_to_le, i64_to_le, le_to_i32, le_to_i64, le_to_u32, le_to_u64,
    u32_to_le, u64_to_le, unpack_dma_capture,
};
use smt160_driver::error::Smt160Error;
use smt160_driver::fixed_point::Q16;
use smt160_driver::hal::{
    check_pclk_mhz, combine_timestamp, edge_from_pio_word, latest_edge_index, prescaler_for, stitch_period,
    validate_pclk1_hz, CapturedEdge, Smt160DmaBuffer,
};
use smt160_driver::platform::VirtualCapture;

#[test]
fn clock_checks() {
    assert_eq!(validate_pclk1_hz(8_000_000), Ok(()));
    assert_eq!(validate_pclk1_hz(7_999_999), Err(Smt160Error::ClockTooSlow));
    assert_eq!(check_pclk_mhz(8), Ok(()));
    assert_eq!(check_pclk_mhz(7), Err(Smt160Error::InvalidConfiguration));
}

#[test]
fn prescaler_values() {
    assert_eq!(prescaler_for(1_000_000), 71);
    assert_eq!(prescaler_for(72_000_000), 0);
    assert_eq!(prescaler_for(100_000_000), 0);
    assert_eq!(prescaler_for(1), 41471);
}

#[test]
fn latest_dma_edge() {
    assert_eq!(latest_edge_index(64, 64), 31);
    assert_eq!(latest_edge_index(64, 63), 31);
    assert_eq!(latest_edge_index(64, 60), 1);
    assert_eq!(latest_edge_index(64, 0), 31);
    assert_eq!(latest_edge_index(0, 0), 0);
    assert_eq!(latest_edge_index(64, 0x1_0000 + 60), 1);
}

#[test]
fn dma_buffer_edges() {
    let mut b: Smt160DmaBuffer<8> = Smt160DmaBuffer::new();
    assert_eq!(b.get_edge(3), CapturedEdge { period_ticks: 0, high_ticks: 0 });
    b.raw[2] = 0xABCD_03E8;
    b.raw[3] = 0x0001_01B5;
    assert_eq!(b.get_edge(1), CapturedEdge { period_ticks: 1000, high_ticks: 437 });
}

#[test]
fn capture_words() {
    assert_eq!(edge_from_pio_word(Some((1000 << 16) | 437)), CapturedEdge { period_ticks: 1000, high_ticks: 437 });
    assert_eq!(edge_from_pio_word(None), CapturedEdge { period_ticks: 0, high_ticks: 0 });
    assert_eq!(unpack_dma_capture((1000 << 16) | 437), (1000, 437));
    assert_eq!(unpack_dma_capture(0x03E8_01F4), (1000, 500));
    assert_eq!(unpack_dma_capture(u32::MAX), (0xFFFF, 0xFFFF));
    assert_eq!(stitch_period(1000, 2), 1000 + 2 * 65536);
    assert_eq!(stitch_period(u32::MAX, u32::MAX), u32::MAX as u64 + ((u32::MAX as u64) << 16));
    assert_eq!(combine_timestamp(3, 0x1234), 3 * 65536 + 0x1234);
    assert_eq!(combine_timestamp(u32::MAX, 0xFFFF), 0xFFFF_FFFF_FFFF);
    let v = VirtualCapture::new(1000, 438);
    assert!(v.is_data_ready);
    assert_eq!(v.capture_data(), (1000, 438));
}

#[test]
fn little_endian_roundtrips() {
    assert_eq!(u32_to_le(0x1234_5678), [0x78, 0x56, 0x34, 0x12]);
    assert_eq!(le_to_u32([0x78, 0x56, 0x34, 0x12]), 0x1234_5678);
    assert_eq!(u64_to_le(0x0102_0304_0506_0708), [8, 7, 6, 5, 4, 3, 2, 1]);
    assert_eq!(le_to_u64([8, 7, 6, 5, 4, 3, 2, 1]), 0x0102_0304_0506_0708);
    assert_eq!(i32_to_le(-1), [0xFF; 4]);
    assert_eq!(le_to_i32([0xFE, 0xFF, 0xFF, 0xFF]), -2);
    assert_eq!(i64_to_le(i64::MIN), [0, 0, 0, 0, 0, 0, 0, 0x80]);
    assert_eq!(le_to_i64(i64_to_le(-123456789012)), -123456789012);
    for v in [i32::MIN, -65536, -1, 0, 1, 1631428, i32::MAX] {
        assert_eq!(i32_to_le(v), v.to_le_bytes());
        assert_eq!(bytes_to_i16f16(i16f16_to_bytes(Q16 { bits: v })), Q16 { bits: v });
    }
    assert_eq!(i16f16_to_bytes(Q16 { bits: -65536 }), (-65536i32).to_le_bytes());
}

#[test]
fn flash_half_words() {
    let data = [0x31u8, 0x54, 0x4D];
    assert_eq!(flash_half_word(&data, 0), 0x5431);
    assert_eq!(flash_half_word(&data, 2), 0xFF4D);
}
