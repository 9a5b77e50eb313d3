//! Error conditions of the SMT160 driver.

use vstd::prelude::*;

verus! {

/// All error conditions of the driver.
#[derive(Debug, Clone, Copy, PartialEq, Eq, Structural)]
pub enum Smt160Error {
    /// The timer clock is too slow for the 0.05 °C precision target.
    ClockTooSlow,
    /// A buffer has an invalid size, or a storage access failed.
    InvalidBuffer,
    /// No usable pulse: the measured period is zero.
    SensorTimeout,
    /// The measured temperature is outside the physical range of the sensor.
    OutOfBounds,
    /// The signal is logically impossible (the active time exceeds the period).
    InvalidSignal,
    /// A measurement did not complete in time, or the input pin failed.
    Timeout,
    /// No complete cycle was seen within the allowed number of transitions.
    SequenceViolation,
    /// The peripheral configuration cannot reach the precision target.
    InvalidConfiguration,
}

impl Smt160Error {
    /// A human readable description of the error.
    pub fn message(&self) -> (r: &'static str)
        ensures
            *self == Smt160Error::ClockTooSlow ==> r@ == "Clock frequency insufficient for 0.05°C precision"@,
            *self == Smt160Error::InvalidBuffer ==> r@ == "Invalid DMA buffer configuration"@,
            *self == Smt160Error::SensorTimeout ==> r@ == "Sensor pulse timeout (disconnected or ESD freeze)"@,
            *self == Smt160Error::OutOfBounds ==> r@ == "Measurement out of bounds or signal corrupted"@,
            *self == Smt160Error::InvalidSignal ==> r@ == "Invalid signal (active time exceeds period)"@,
            *self == Smt160Error::Timeout ==> r@ == "Measurement timed out"@,
            *self == Smt160Error::SequenceViolation ==> r@ == "No complete PWM cycle within the transition limit"@,
            *self == Smt160Error::InvalidConfiguration ==> r@ == "Peripheral clock insufficient for 0.05°C precision"@,
    {
        match self {
            Smt160Error::ClockTooSlow => "Clock frequency insufficient for 0.05°C precision",
            Smt160Error::InvalidBuffer => "Invalid DMA buffer configuration",
            Smt160Error::SensorTimeout => "Sensor pulse timeout (disconnected or ESD freeze)",
            Smt160Error::OutOfBounds => "Measurement out of bounds or signal corrupted",
            Smt160Error::InvalidSignal => "Invalid signal (active time exceeds period)",
            Smt160Error::Timeout => "Measurement timed out",
            Smt160Error::SequenceViolation => "No complete PWM cycle within the transition limit",
            Smt160Error::InvalidConfiguration => "Peripheral clock insufficient for 0.05°C precision",
        }
    }
}

} // verus!
