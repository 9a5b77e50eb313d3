//! Transfer-function constants, physical limits and driver configuration.

use vstd::prelude::*;
use crate::fixed_point::Q32;
use crate::types::TriggerEdge;

verus! {

/// Duty-cycle offset of the SMT160 transfer function
/// `DutyCycle = 0.320 + 0.00470 * T`: 0.320, as raw `Q32` bits.
pub const DUTY_CYCLE_OFFSET_BITS: i64 = 1374389535;

/// Inverse of the step constant (1 / 0.00470 = 212.7659574...), as raw `Q32` bits.
pub const INVERSE_STEP_CONSTANT_BITS: i64 = 913822828936;

/// Minimum allowable signal frequency in Hz.
pub const MINIMUM_FREQUENCY_HZ: u32 = 500;

/// Maximum allowable signal frequency in Hz.
pub const MAXIMUM_FREQUENCY_HZ: u32 = 5000;

/// Lower industrial temperature bound (-45 °C), as raw `Q16` bits.
pub const MINIMUM_TEMPERATURE_CELSIUS_BITS: i32 = -2949120;

/// Upper industrial temperature bound (130 °C), as raw `Q16` bits.
pub const MAXIMUM_TEMPERATURE_CELSIUS_BITS: i32 = 8519680;

/// Source of the transfer-function constants used to compute temperatures.
pub trait Smt160Config {
    /// Returns `(duty-cycle offset, inverse step constant)`.
    fn get_offsets(&self) -> (Q32, Q32);
}

/// The manufacturer's standard SMT160 constants.
pub struct StaticConfiguration;

impl Smt160Config for StaticConfiguration {
    fn get_offsets(&self) -> (r: (Q32, Q32))
        ensures
            r.0.bits == DUTY_CYCLE_OFFSET_BITS,
            r.1.bits == INVERSE_STEP_CONSTANT_BITS,
    {
        (Q32::from_bits(DUTY_CYCLE_OFFSET_BITS), Q32::from_bits(INVERSE_STEP_CONSTANT_BITS))
    }
}

/// Jitter tolerance of `Config::industrial` (0.005 = 0.5 %), as raw `Q32` bits.
pub const INDUSTRIAL_JITTER_BITS: i64 = 21474836;
/// Jitter tolerance of `Config::fast` (0.02 = 2 %), as raw `Q32` bits.
pub const FAST_JITTER_BITS: i64 = 85899346;

/// Tuning of the driver for an environment.
#[derive(Debug, Clone, Copy, PartialEq, Eq, Structural)]
pub struct Config {
    /// Jitter tolerance as a fraction of the mean period (0.005 for 0.5 %).
    pub jitter_threshold_pct: Q32,
    /// Time without data after which the sensor is reported lost, in ms.
    pub timeout_ms: u32,
    /// Temperature threshold for edge-triggered notifications.
    pub threshold: Option<Q32>,
    /// Which crossing of the threshold is notified.
    pub trigger_edge: TriggerEdge,
}

impl Config {
    /// Settings for industrial environments: 0.5 % jitter tolerance, 500 ms timeout.
    pub fn industrial() -> (r: Config)
        ensures
            r.jitter_threshold_pct.bits == INDUSTRIAL_JITTER_BITS,
            r.timeout_ms == 500,
            r.threshold is None,
            r.trigger_edge == TriggerEdge::Both,
    {
        Config {
            jitter_threshold_pct: Q32::from_bits(INDUSTRIAL_JITTER_BITS),
            timeout_ms: 500,
            threshold: None,
            trigger_edge: TriggerEdge::Both,
        }
    }

    /// Settings for fast sampling in clean environments: 2 % jitter
    /// tolerance, 100 ms timeout.
    pub fn fast() -> (r: Config)
        ensures
            r.jitter_threshold_pct.bits == FAST_JITTER_BITS,
            r.timeout_ms == 100,
            r.threshold is None,
            r.trigger_edge == TriggerEdge::Both,
    {
        Config {
            jitter_threshold_pct: Q32::from_bits(FAST_JITTER_BITS),
            timeout_ms: 100,
            threshold: None,
            trigger_edge: TriggerEdge::Both,
        }
    }
}

} // verus!
