//! Status flags reported by the driver.

use vstd::prelude::*;

verus! {

/// A set of status flags, one bit per condition. The flags are the
/// associated `u8` constants.
#[derive(Debug, Clone, Copy, PartialEq, Eq, Structural)]
pub struct Smt160Status {
    pub bits: u8,
}

impl Smt160Status {
    /// Signal jitter exceeds the configured threshold (EMI or loose wiring).
    pub const JITTER_DETECTED: u8 = 1;
    /// The measurement is outside the physical bounds (-45 °C to 130 °C).
    pub const OUT_OF_BOUNDS: u8 = 2;
    /// No pulse was seen within the configured timeout.
    pub const SENSOR_TIMEOUT: u8 = 4;
    /// The temperature changes faster than 10 °C/s.
    pub const GRADIENT_ERROR: u8 = 8;
    /// The standard deviation of the period exceeds 1.5 % of its mean.
    pub const SIGNAL_NOISY: u8 = 16;
    /// The temperature changes faster than 15 °C/s.
    pub const THERMAL_RUNAWAY: u8 = 32;

    /// The set with no flag.
    pub fn empty() -> (r: Smt160Status)
        ensures
            r.bits == 0,
    {
        Smt160Status { bits: 0 }
    }

    /// The raw bits of the set.
    pub fn bits(&self) -> (r: u8)
        ensures
            r == self.bits,
    {
        self.bits
    }

    /// Whether every flag in `flags` is in the set.
    pub fn contains(&self, flags: u8) -> (r: bool)
        ensures
            r == (self.bits & flags == flags),
    {
        self.bits & flags == flags
    }

    /// Adds the flags in `flags`.
    pub fn insert(&mut self, flags: u8)
        ensures
            final(self).bits == old(self).bits | flags,
    {
        self.bits = self.bits | flags;
    }

    /// Removes the flags in `flags`.
    pub fn remove(&mut self, flags: u8)
        ensures
            final(self).bits == old(self).bits & !flags,
    {
        self.bits = self.bits & !flags;
    }
}

/// After inserting flags, the set contains them; after removing a single
/// flag, it no longer does; either way the other flags keep their state.
pub proof fn lemma_flag_updates(s: Smt160Status, f: u8, g: u8)
    requires
        f == Smt160Status::JITTER_DETECTED || f == Smt160Status::OUT_OF_BOUNDS
            || f == Smt160Status::SENSOR_TIMEOUT || f == Smt160Status::GRADIENT_ERROR
            || f == Smt160Status::SIGNAL_NOISY || f == Smt160Status::THERMAL_RUNAWAY,
        f & g == 0,
    ensures
        (s.bits | f) & f == f,
        (s.bits & !f) & f != f,
        ((s.bits | f) & g == g) == (s.bits & g == g),
        ((s.bits & !f) & g == g) == (s.bits & g == g),
{
    let b = s.bits;
    assert((b | f) & f == f) by (bit_vector);
    assert((b & !f) & f != f) by (bit_vector)
        requires f != 0;
    assert(((b | f) & g == g) == (b & g == g)) by (bit_vector)
        requires f & g == 0;
    assert(((b & !f) & g == g) == (b & g == g)) by (bit_vector)
        requires f & g == 0;
}

} // verus!
