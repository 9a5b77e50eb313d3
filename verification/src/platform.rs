//! Capture sources that are not tied to a hardware peripheral.

use vstd::prelude::*;
use crate::error::Smt160Error;
use crate::hal::{CapturedEdge, Smt160Hal};

verus! {

/// A capture source returning fixed, pre-defined cycles, for tests.
#[derive(Debug, Clone, Copy, PartialEq, Eq, Structural)]
pub struct VirtualCapture {
    /// The period returned, in ticks.
    pub period_ticks: u64,
    /// The high time returned, in ticks.
    pub active_ticks: u64,
    /// Whether a capture is ready.
    pub is_data_ready: bool,
}

impl VirtualCapture {
    /// A virtual capture returning `(period_ticks, active_ticks)`, ready at once.
    pub fn new(period_ticks: u64, active_ticks: u64) -> (r: VirtualCapture)
        ensures
            r == (VirtualCapture { period_ticks, active_ticks, is_data_ready: true }),
    {
        VirtualCapture { period_ticks, active_ticks, is_data_ready: true }
    }

    /// The captured `(period, active)` ticks.
    pub fn capture_data(&self) -> (r: (u64, u64))
        ensures
            r == (self.period_ticks, self.active_ticks),
    {
        (self.period_ticks, self.active_ticks)
    }
}

/// A virtual capture serves as a hardware adapter delivering its fixed cycle.
impl Smt160Hal for VirtualCapture {
    open spec fn obeys_hal_spec() -> bool {
        true
    }

    open spec fn has_new_data(&self) -> bool {
        self.is_data_ready
    }

    open spec fn latest_edge(&self) -> CapturedEdge {
        CapturedEdge { period_ticks: self.period_ticks, high_ticks: self.active_ticks }
    }

    fn setup(&mut self, _freq: u32) -> Result<(), Smt160Error> {
        Ok(())
    }

    fn is_new_data_available(&self) -> (r: bool) {
        self.is_data_ready
    }

    fn read_raw(&self) -> (r: CapturedEdge) {
        CapturedEdge { period_ticks: self.period_ticks, high_ticks: self.active_ticks }
    }
}

/// A source of monotonic timestamps, in timer ticks.
pub trait Smt160Monotonic {
    fn now(&self) -> u64;
}

} // verus!
