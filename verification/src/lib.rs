//! Verified signal-processing core of a driver for the SMT160 PWM temperature sensor.

pub mod fixed_point;
pub mod error;
pub mod status;
pub mod math;
pub mod types;
pub mod config;
pub mod telemetry;
pub mod conversion;
pub mod calibration;
pub mod decoder;
pub mod hal;
pub mod driver;
pub mod capture;
pub mod i2c_telemetry;
pub mod platform;

pub use calibration::{Calibration, LinearCalibration};
pub use config::Config;
pub use driver::Smt160Driver;
pub use error::Smt160Error;
pub use math::SignalDecoder;
pub use status::Smt160Status;
pub use telemetry::Diagnostics;
pub use types::{Ready, Reading, Smt160Observer, Uninitialized};
