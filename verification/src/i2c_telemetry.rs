//! Sharing the latest temperature between tasks, for bus (I2C/SPI) reads.

use core::sync::atomic::{AtomicU32, Ordering};
use vstd::prelude::*;
use crate::conversion::{from_twos_complement, twos_complement, le_u32_value, u32_to_le};
use crate::fixed_point::Q16;

verus! {

/// The 32-bit word holding a temperature's raw bits.
pub fn temperature_word(t: Q16) -> (r: u32)
    ensures
        r == twos_complement(t.bits as int, 0x1_0000_0000),
{
    if t.bits < 0 {
        ((t.bits as i64) + 0x1_0000_0000i64) as u32
    } else {
        t.bits as u32
    }
}

/// The temperature whose raw bits a 32-bit word holds.
pub fn temperature_from_word(w: u32) -> (r: Q16)
    ensures
        r.bits == from_twos_complement(w as int, 0x1_0000_0000),
{
    if w >= 0x8000_0000 {
        Q16::from_bits(((w as i64) - 0x1_0000_0000i64) as i32)
    } else {
        Q16::from_bits(w as i32)
    }
}

/// The little-endian bytes sent for a stored temperature word.
pub fn reading_bytes(w: u32) -> (r: [u8; 4])
    ensures
        le_u32_value(r@) == w,
{
    u32_to_le(w)
}

/// A lock-free cell with the latest temperature, written by the sensor task
/// and read by bus handlers.
pub struct Smt160SharedTelemetry {
    temperature_bits_atomic: AtomicU32,
}

impl Smt160SharedTelemetry {
    /// A cell holding 0 °C.
    pub fn new() -> (r: Smt160SharedTelemetry) {
        Smt160SharedTelemetry { temperature_bits_atomic: AtomicU32::new(0) }
    }

    /// Stores a new temperature.
    pub fn update_temperature(&self, current_temperature: Q16) {
        let w = temperature_word(current_temperature);
        self.temperature_bits_atomic.store(w, Ordering::Release);
    }

    /// The latest stored temperature.
    pub fn get_latest_reading(&self) -> (r: Q16) {
        let w = self.temperature_bits_atomic.load(Ordering::Acquire);
        temperature_from_word(w)
    }

    /// The latest stored temperature as little-endian bytes of its raw bits.
    pub fn get_latest_reading_bytes(&self) -> (r: [u8; 4]) {
        let w = self.temperature_bits_atomic.load(Ordering::Acquire);
        reading_bytes(w)
    }
}

impl Default for Smt160SharedTelemetry {
    fn default() -> (r: Smt160SharedTelemetry) {
        Self::new()
    }
}

/// Answers bus read requests from a shared telemetry cell.
pub struct Smt160I2cTelemetryTask<'a> {
    pub shared_telemetry: &'a Smt160SharedTelemetry,
}

impl<'a> Smt160I2cTelemetryTask<'a> {
    /// A handler reading from `shared_telemetry`.
    pub fn new(shared_telemetry: &'a Smt160SharedTelemetry) -> (r: Smt160I2cTelemetryTask<'a>)
        ensures
            r.shared_telemetry == shared_telemetry,
    {
        Smt160I2cTelemetryTask { shared_telemetry }
    }

    /// The bytes answered to a read request: the latest temperature.
    pub fn read_request_bytes(&self) -> (r: [u8; 4]) {
        self.shared_telemetry.get_latest_reading_bytes()
    }
}

} // verus!
