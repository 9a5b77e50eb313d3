use smt160_driver::calibration::{
    check_calibration_magic, decode_calibration, encode_calibration, PiecewiseLinearCalibration, CALIB_MAGIC,
};
use smt160_driver::config::{Config, Smt160Config, StaticConfiguration, DUTY_CYCLE_OFFSET_BITS, INVERSE_STEP_CONSTANT_BITS};
use smt160_driver::error::Smt160Error;
use smt160_driver::fixed_point::{Q16, Q32};
use smt160_driver::i2c_telemetry::{Smt160I2cTelemetryTask, Smt160SharedTelemetry};
use smt160_driver::telemetry::{Diagnostics, JitterHistogram};
use smt160_driver::types::TriggerEdge;
use smt160_driver::{Calibration, LinearCalibration, Smt160Status};

const ONE: i64 = 1 << 32;

#[test]
fn diagnostics_statistics() {
    let mut d = Diagnostics::new();
    assert_eq!(d.variance().bits, 0);
    assert_eq!(d.jitter_p2p(), 0);
    d.update(1000);
    assert_eq!(d.mean_period().bits, 1000 * ONE);
    assert_eq!(d.variance().bits, 0);
    d.update(1006);
    assert_eq!(d.count, 2);
    assert_eq!(d.mean_period().bits, 1003 * ONE);
    assert_eq!(d.m2_ticks, 18 * ONE);
    assert_eq!(d.variance().bits, 18 * ONE);
    // sqrt(18) = 4.2426406871..., rounded to the nearest 2^-32.
    assert_eq!(d.std_dev().bits, 18222003000);
    assert_eq!(d.jitter_rms().bits, 18222003000);
    assert_eq!(d.jitter_p2p(), 6);
    assert_eq!((d.min_ticks, d.max_ticks), (1000, 1006));
    assert_eq!(d.histogram.counts, [0, 0, 0, 0, 1, 1, 0, 0, 0]);
    assert!(d.can_update(1003));
    assert!(!d.can_update(u32::MAX));
}

#[test]
fn statistics_over_many_periods() {
    let mut d = Diagnostics::new();
    let periods = [1000u32, 1004, 996, 1010, 990, 1001];
    for p in periods {
        d.update(p);
    }
    assert_eq!(d.count, 6);
    assert_eq!((d.min_ticks, d.max_ticks), (990, 1010));
    assert_eq!(d.jitter_p2p(), 20);
    assert_eq!(d.histogram.counts.iter().sum::<u32>(), 6);
    assert!(d.mean_period().bits >= 990 * ONE && d.mean_period().bits <= 1010 * ONE);
    // The mean is the average (1000.1666...) up to the rounding of six updates.
    let sum: i128 = periods.iter().map(|&p| p as i128).sum::<i128>() * (ONE as i128);
    let gap = 6 * (d.mean_period().bits as i128) - sum;
    assert!(2 * gap.abs() <= 6 * 5);
}

#[test]
fn histogram_buckets() {
    let mut h = JitterHistogram::new();
    let mean = Q32::from_int(1000);
    for t in [970u32, 985, 992, 997, 1000, 1004, 1010, 1020, 1030] {
        h.update(t, mean);
    }
    assert_eq!(h.counts, [1; 9]);
}

#[test]
fn status_flags() {
    let mut s = Smt160Status::empty();
    assert_eq!(s.bits(), 0);
    s.insert(Smt160Status::OUT_OF_BOUNDS | Smt160Status::SIGNAL_NOISY);
    assert!(s.contains(Smt160Status::OUT_OF_BOUNDS));
    assert!(s.contains(Smt160Status::SIGNAL_NOISY));
    assert!(!s.contains(Smt160Status::SENSOR_TIMEOUT));
    s.remove(Smt160Status::OUT_OF_BOUNDS);
    assert!(!s.contains(Smt160Status::OUT_OF_BOUNDS));
    assert_eq!(s.bits(), Smt160Status::SIGNAL_NOISY);
    assert_eq!(
        [Smt160Status::JITTER_DETECTED, Smt160Status::OUT_OF_BOUNDS, Smt160Status::SENSOR_TIMEOUT,
         Smt160Status::GRADIENT_ERROR, Smt160Status::SIGNAL_NOISY, Smt160Status::THERMAL_RUNAWAY],
        [1, 2, 4, 8, 16, 32]
    );
}

#[test]
fn linear_calibration() {
    let id = LinearCalibration::default();
    assert_eq!(id.calibrate(Q32 { bits: 25 * ONE + 3 }).bits, 25 * ONE + 3);
    let c = LinearCalibration { slope: Q32 { bits: 2 * ONE }, offset: Q32 { bits: -ONE / 2 } };
    assert_eq!(c.calibrate(Q32 { bits: 10 * ONE }).bits, 20 * ONE - ONE / 2);
    assert_eq!(c.checked_calibrate(Q32 { bits: 10 * ONE }), Some(Q32 { bits: 20 * ONE - ONE / 2 }));
    let big = LinearCalibration { slope: Q32 { bits: i64::MAX }, offset: Q32 { bits: 0 } };
    assert_eq!(big.checked_calibrate(Q32 { bits: 2 * ONE }), None);
    let edge = LinearCalibration { slope: Q32 { bits: ONE }, offset: Q32 { bits: i64::MAX } };
    assert_eq!(edge.checked_calibrate(Q32 { bits: 1 }), None);
    assert_eq!(Q32 { bits: i64::MAX }.checked_add(Q32 { bits: 1 }), None);
    assert_eq!(Q32 { bits: 5 }.checked_add(Q32 { bits: -7 }), Some(Q32 { bits: -2 }));
}

#[test]
fn piecewise_calibration() {
    let mut p = PiecewiseLinearCalibration::default();
    assert_eq!(p.calibrate(Q32 { bits: 42 * ONE }).bits, 42 * ONE);
    p.points[0] = (Q32 { bits: 10 * ONE }, Q32 { bits: 11 * ONE });
    p.count = 1;
    assert_eq!(p.calibrate(Q32 { bits: 42 * ONE }).bits, 43 * ONE);
    p.points[1] = (Q32 { bits: 20 * ONE }, Q32 { bits: 31 * ONE });
    p.points[2] = (Q32 { bits: 30 * ONE }, Q32 { bits: 41 * ONE });
    p.count = 3;
    assert_eq!(p.calibrate(Q32 { bits: 15 * ONE }).bits, 21 * ONE);
    assert_eq!(p.calibrate(Q32 { bits: 25 * ONE }).bits, 36 * ONE);
    assert_eq!(p.calibrate(Q32 { bits: 0 }).bits, 11 * ONE);
    assert_eq!(p.calibrate(Q32 { bits: 99 * ONE }).bits, 41 * ONE);
}

#[test]
fn calibration_record_roundtrip() {
    let cal = LinearCalibration { slope: Q32 { bits: ONE + 12345 }, offset: Q32 { bits: -7 * ONE } };
    let rec = encode_calibration(&cal);
    assert_eq!(rec.magic, CALIB_MAGIC.to_le_bytes());
    assert_eq!(rec.magic, *b"1TMS");
    assert_eq!(rec.version, [1, 0]);
    assert_eq!(rec.slope, (ONE + 12345).to_le_bytes());
    assert_eq!(check_calibration_magic(rec.magic), Ok(()));
    assert_eq!(check_calibration_magic([0xFF; 4]), Err(Smt160Error::InvalidSignal));
    assert_eq!(decode_calibration(rec.slope, rec.offset), cal);
}

#[test]
fn configuration_presets() {
    let i = Config::industrial();
    assert_eq!(i.jitter_threshold_pct.bits, 21474836);
    assert_eq!(i.timeout_ms, 500);
    assert_eq!(i.threshold, None);
    assert_eq!(i.trigger_edge, TriggerEdge::Both);
    let f = Config::fast();
    assert_eq!(f.jitter_threshold_pct.bits, 85899346);
    assert_eq!(f.timeout_ms, 100);
    assert_eq!(StaticConfiguration.get_offsets(), (Q32 { bits: DUTY_CYCLE_OFFSET_BITS }, Q32 { bits: INVERSE_STEP_CONSTANT_BITS }));
}

#[test]
fn shared_telemetry_read_back() {
    let shared = Smt160SharedTelemetry::new();
    assert_eq!(shared.get_latest_reading(), Q16 { bits: 0 });
    shared.update_temperature(Q16 { bits: -1631428 });
    assert_eq!(shared.get_latest_reading(), Q16 { bits: -1631428 });
    assert_eq!(shared.get_latest_reading_bytes(), (-1631428i32).to_le_bytes());
    let task = Smt160I2cTelemetryTask::new(&shared);
    assert_eq!(task.read_request_bytes(), (-1631428i32).to_le_bytes());
    let d = Smt160SharedTelemetry::default();
    assert_eq!(d.get_latest_reading_bytes(), [0; 4]);
}

#[test]
fn error_messages() {
    assert_eq!(Smt160Error::ClockTooSlow.message(), "Clock frequency insufficient for 0.05°C precision");
    assert_eq!(Smt160Error::InvalidSignal.message(), "Invalid signal (active time exceeds period)");
    assert_eq!(Smt160Error::SequenceViolation.message(), "No complete PWM cycle within the transition limit");
}
