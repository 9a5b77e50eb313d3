//! Typestates, trigger edges, readings and the observer interface.

use vstd::prelude::*;
use crate::fixed_point::{Q16, Q32};
use crate::status::Smt160Status;

verus! {

/// Marker of a driver whose hardware is not initialized yet.
pub struct Uninitialized;

/// Marker of an initialized driver that can take measurements.
pub struct Ready;

/// Marker of an actively polling driver.
pub struct Running;

/// Edge direction on which threshold notifications are sent.
#[derive(Debug, Clone, Copy, PartialEq, Eq, Structural)]
pub enum TriggerEdge {
    Rising,
    Falling,
    Both,
}

/// A filtered temperature reading with the status at the time it was taken.
#[derive(Debug, Clone, Copy, PartialEq, Eq, Structural)]
pub struct Reading {
    /// Temperature in °C.
    pub temperature_celsius: Q16,
    /// Status flags.
    pub status: Smt160Status,
}

/// Receiver of driver events, implemented by the application.
pub trait Smt160Observer {
    /// Called with the filtered temperature when a notification is due.
    fn on_threshold_crossed(&self, temp: Q32);

    /// Called when the sensor signal is lost (timeout).
    fn on_signal_lost(&self);

    /// Called when a hardware or signal-quality error is detected.
    fn on_hardware_error(&self);
}

impl Smt160Observer for () {
    fn on_threshold_crossed(&self, _temp: Q32) {
    }

    fn on_signal_lost(&self) {
    }

    fn on_hardware_error(&self) {
    }
}

} // verus!
