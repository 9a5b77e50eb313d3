use core::cell::{Cell, RefCell};
use smt160_driver::driver::Notifications;
use smt160_driver::error::Smt160Error;
use smt160_driver::fixed_point::Q32;
use smt160_driver::hal::{CapturedEdge, Smt160Hal};
use smt160_driver::types::{Smt160Observer, TriggerEdge};
use smt160_driver::{Config, LinearCalibration, Smt160Driver, Smt160Status};

const ONE: i64 = 1 << 32;

struct QueueHal {
    next: RefCell<Option<CapturedEdge>>,
    fail_setup: bool,
    setups: u32,
}

impl QueueHal {
    fn new() -> Self {
        QueueHal { next: RefCell::new(None), fail_setup: false, setups: 0 }
    }
}

impl Smt160Hal for QueueHal {
    fn setup(&mut self, _freq: u32) -> Result<(), Smt160Error> {
        self.setups += 1;
        if self.fail_setup { Err(Smt160Error::ClockTooSlow) } else { Ok(()) }
    }

    fn is_new_data_available(&self) -> bool {
        self.next.borrow().is_some()
    }

    fn read_raw(&self) -> CapturedEdge {
        self.next.borrow_mut().take().unwrap()
    }
}

#[derive(Default)]
struct CountingObserver {
    crossings: RefCell<Vec<i64>>,
    lost: Cell<u32>,
    errors: Cell<u32>,
}

impl Smt160Observer for &CountingObserver {
    fn on_threshold_crossed(&self, temp: Q32) {
        self.crossings.borrow_mut().push(temp.bits);
    }

    fn on_signal_lost(&self) {
        self.lost.set(self.lost.get() + 1);
    }

    fn on_hardware_error(&self) {
        self.errors.set(self.errors.get() + 1);
    }
}

fn feed<O: Smt160Observer>(d: &mut Smt160Driver<QueueHal, smt160_driver::Ready, O>, period: u64, high: u64, now: u64) -> Option<Q32> {
    *d.hal_mut().next.borrow_mut() = Some(CapturedEdge { period_ticks: period, high_ticks: high });
    d.read_temperature(now)
}

#[test]
fn readings_are_filtered_exactly() {
    let mut d = Smt160Driver::new(QueueHal::new(), Config::industrial(), 0).init(1_000_000).unwrap();
    assert_eq!(feed(&mut d, 1000, 437, 1), Some(Q32 { bits: 106917270851 }));
    assert_eq!(feed(&mut d, 1000, 484, 2), Some(Q32 { bits: 140906164289 }));
    assert_eq!(d.sample_count, 2);
    assert_eq!(d.last_period, 1000);
}

#[test]
fn watchdog_fires_once_after_timeout() {
    let obs = CountingObserver::default();
    let mut d = Smt160Driver::new(QueueHal::new(), Config::industrial(), 1000)
        .with_observer(&obs)
        .init(1_000_000)
        .unwrap();
    assert_eq!(d.read_temperature(1499), None);
    assert!(!d.status().contains(Smt160Status::SENSOR_TIMEOUT));
    assert_eq!(d.read_temperature(1500), None);
    assert!(d.status().contains(Smt160Status::SENSOR_TIMEOUT));
    assert_eq!(d.read_temperature(1600), None);
    assert_eq!(obs.lost.get(), 1);
    // Data clears the flag and restarts the watchdog.
    assert!(feed(&mut d, 1000, 437, 1700).is_some());
    assert!(!d.status().contains(Smt160Status::SENSOR_TIMEOUT));
    assert_eq!(d.read_temperature(2199), None);
    assert!(!d.status().contains(Smt160Status::SENSOR_TIMEOUT));
}

#[test]
fn out_of_bounds_flag_set_and_cleared() {
    let mut d = Smt160Driver::new(QueueHal::new(), Config::fast(), 0).init(1_000_000).unwrap();
    assert_eq!(feed(&mut d, 1000, 990, 1), None);
    assert!(d.status().contains(Smt160Status::OUT_OF_BOUNDS));
    assert_eq!(feed(&mut d, 0, 0, 2), None);
    assert!(d.status().contains(Smt160Status::OUT_OF_BOUNDS));
    assert!(feed(&mut d, 1000, 437, 3).is_some());
    assert!(!d.status().contains(Smt160Status::OUT_OF_BOUNDS));
    assert_eq!(d.sample_count, 1);
}

#[test]
fn threshold_notifications_follow_the_edge() {
    let obs = CountingObserver::default();
    let mut cfg = Config::industrial();
    cfg.threshold = Some(Q32 { bits: 30 * ONE });
    cfg.trigger_edge = TriggerEdge::Rising;
    let mut d = Smt160Driver::new(QueueHal::new(), cfg, 0).with_observer(&obs).init(1_000_000).unwrap();
    feed(&mut d, 1000, 437, 1);
    assert!(obs.crossings.borrow().is_empty());
    assert_eq!(d.last_above_threshold, Some(false));
    // 32.8 °C after filtering: a rising crossing.
    feed(&mut d, 1000, 484, 2);
    assert_eq!(*obs.crossings.borrow(), vec![140906164289]);
    // Falling back below 30 °C is not reported for a rising trigger.
    feed(&mut d, 1000, 400, 3);
    feed(&mut d, 1000, 400, 4);
    assert_eq!(d.last_above_threshold, Some(false));
    assert_eq!(obs.crossings.borrow().len(), 1);
}

#[test]
fn without_threshold_every_reading_is_notified() {
    let obs = CountingObserver::default();
    let mut d = Smt160Driver::new(QueueHal::new(), Config::industrial(), 0).with_observer(&obs).init(1_000_000).unwrap();
    feed(&mut d, 1000, 437, 1);
    feed(&mut d, 1000, 437, 2);
    assert_eq!(obs.crossings.borrow().len(), 2);
}

#[test]
fn noisy_signal_reports_hardware_error() {
    let obs = CountingObserver::default();
    let mut d = Smt160Driver::new(QueueHal::new(), Config::industrial(), 0).with_observer(&obs).init(1_000_000).unwrap();
    feed(&mut d, 1000, 437, 1);
    feed(&mut d, 1100, 480, 2);
    assert!(d.status().contains(Smt160Status::SIGNAL_NOISY));
    assert!(d.status().contains(Smt160Status::JITTER_DETECTED));
    feed(&mut d, 900, 394, 3);
    assert_eq!(obs.errors.get(), 1);
}

#[test]
fn calibration_is_applied_before_filtering() {
    let mut d = Smt160Driver::new(QueueHal::new(), Config::industrial(), 0).init(1_000_000).unwrap();
    d.calibration = LinearCalibration { slope: Q32 { bits: ONE }, offset: Q32 { bits: ONE } };
    assert_eq!(feed(&mut d, 1000, 437, 1), Some(Q32 { bits: 111212238147 }));
}

#[test]
fn process_poll_reports_events() {
    let mut d = Smt160Driver::new(QueueHal::new(), Config::fast(), 0).init(1_000_000).unwrap();
    let (r, n) = d.process_poll(None, 100);
    assert_eq!(r, None);
    assert_eq!(n, Notifications { threshold_crossed: None, signal_lost: true, hardware_error: false });
    let (r, n) = d.process_poll(Some(CapturedEdge { period_ticks: 1000, high_ticks: 437 }), 101);
    assert_eq!(r, Some(Q32 { bits: 106917270851 }));
    assert_eq!(n.threshold_crossed, r);
    assert!(!n.signal_lost);
}

#[test]
fn wait_failure_sets_timeout_once() {
    let mut d = Smt160Driver::new(QueueHal::new(), Config::industrial(), 0).init(1_000_000).unwrap();
    assert!(d.record_wait_failure().signal_lost);
    assert!(!d.record_wait_failure().signal_lost);
    assert!(d.status().contains(Smt160Status::SENSOR_TIMEOUT));
}

#[test]
fn setup_errors_are_returned() {
    let mut hal = QueueHal::new();
    hal.fail_setup = true;
    let r = Smt160Driver::new(hal, Config::industrial(), 0).init(1_000_000);
    assert_eq!(r.err(), Some(Smt160Error::ClockTooSlow));
    let mut d = Smt160Driver::new(QueueHal::new(), Config::industrial(), 0).init(1_000_000).unwrap();
    feed(&mut d, 1000, 437, 1);
    d.hal_mut().fail_setup = true;
    assert_eq!(d.reinit(1_000_000, 5), Err(Smt160Error::ClockTooSlow));
    assert_eq!(d.sample_count, 1);
    assert_eq!(d.hal.setups, 2);
}

#[test]
fn settings_check_and_custom_table() {
    let mut d = Smt160Driver::new(QueueHal::new(), Config::industrial(), 0).init(1_000_000).unwrap();
    assert!(d.settings_supported());
    d.diagnostics.count = 0x8000_0000;
    assert!(!d.settings_supported());
    d.diagnostics.count = 0;
    // A steep calibration works as long as the result is representable.
    d.calibration = LinearCalibration { slope: Q32 { bits: 20000 * ONE }, offset: Q32 { bits: 0 } };
    assert!(d.settings_supported());
    assert_eq!(feed(&mut d, 1000, 437, 1), Some(Q32 { bits: 2138345417020000 }));
    d.calibration = LinearCalibration::default();
    let half: &'static [(Q32, Q32)] = Box::leak(Box::new([(Q32 { bits: 0 }, Q32 { bits: 0 }), (Q32 { bits: 100 * ONE }, Q32 { bits: 50 * ONE })]));
    d.nlc_table = Some(half);
    d.last_temp = None;
    assert_eq!(feed(&mut d, 1000, 437, 2), Some(Q32 { bits: 53458635425 }));
}

#[test]
fn calibration_overflow_is_out_of_bounds() {
    let mut d = Smt160Driver::new(QueueHal::new(), Config::industrial(), 0).init(1_000_000).unwrap();
    d.calibration = LinearCalibration { slope: Q32 { bits: i64::MAX }, offset: Q32 { bits: 0 } };
    assert_eq!(feed(&mut d, 1000, 437, 1), None);
    assert!(d.status().contains(Smt160Status::OUT_OF_BOUNDS));
    assert_eq!(d.sample_count, 0);
    d.calibration = LinearCalibration::default();
    let steep: &'static [(Q32, Q32)] = Box::leak(Box::new([(Q32 { bits: 0 }, Q32 { bits: i64::MIN }), (Q32 { bits: 200 * ONE }, Q32 { bits: i64::MAX })]));
    d.nlc_table = Some(steep);
    assert_eq!(feed(&mut d, 1000, 437, 2), None);
    assert!(d.status().contains(Smt160Status::OUT_OF_BOUNDS));
}

#[test]
fn setup_outcomes_are_recorded() {
    let d = Smt160Driver::new(QueueHal::new(), Config::industrial(), 7);
    assert_eq!(d.enter_ready(Err(Smt160Error::InvalidConfiguration)).err(), Some(Smt160Error::InvalidConfiguration));
    let d = Smt160Driver::new(QueueHal::new(), Config::industrial(), 7);
    let mut ready = d.enter_ready(Ok(())).unwrap();
    assert_eq!(ready.last_update_ms, 7);
    feed(&mut ready, 1000, 437, 8);
    assert_eq!(ready.apply_setup(Err(Smt160Error::ClockTooSlow), 20), Err(Smt160Error::ClockTooSlow));
    assert_eq!((ready.sample_count, ready.last_update_ms), (1, 8));
    assert_eq!(ready.apply_setup(Ok(()), 20), Ok(()));
    assert_eq!((ready.sample_count, ready.last_update_ms, ready.status().bits()), (0, 20, 0));
}
