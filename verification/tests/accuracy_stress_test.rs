use core::cell::RefCell;
use fixed::types::I32F32;
use smt160_driver::error::Smt160Error;
use smt160_driver::hal::{CapturedEdge, Smt160Hal};
use smt160_driver::{Config, Smt160Driver, Smt160Status};

struct MockHal {
    next_data: RefCell<Option<CapturedEdge>>,
}

impl Smt160Hal for MockHal {
    fn setup(&mut self, _freq: u32) -> Result<(), Smt160Error> {
        Ok(())
    }

    fn is_new_data_available(&self) -> bool {
        self.next_data.borrow().is_some()
    }

    fn read_raw(&self) -> CapturedEdge {
        self.next_data.borrow_mut().take().unwrap()
    }
}

#[test]
fn test_jitter_detection() {
    let hal = MockHal { next_data: RefCell::new(None) };
    let mut driver = Smt160Driver::new(hal, Config::industrial(), 0).init(1000).unwrap();

    // First sample: stable
    *driver.hal_mut().next_data.borrow_mut() = Some(CapturedEdge { period_ticks: 1000, high_ticks: 437 });
    driver.read_temperature(1);
    assert!(!driver.status().contains(Smt160Status::JITTER_DETECTED));

    // Second sample: 0.6% jitter (> 0.5% industrial threshold)
    *driver.hal_mut().next_data.borrow_mut() = Some(CapturedEdge { period_ticks: 1006, high_ticks: 440 });
    driver.read_temperature(2);
    assert!(driver.status().contains(Smt160Status::JITTER_DETECTED));
}

#[test]
fn test_adaptive_filtering() {
    let hal = MockHal { next_data: RefCell::new(None) };
    let mut driver = Smt160Driver::new(hal, Config::industrial(), 0).init(1000).unwrap();

    // Sample 1: 25°C
    *driver.hal_mut().next_data.borrow_mut() = Some(CapturedEdge { period_ticks: 1000, high_ticks: 437 });
    let _temp1 = driver.read_temperature(1).unwrap();

    // Sample 2: sudden jump to 35°C (> 5°C deviation, alpha = 0.8)
    *driver.hal_mut().next_data.borrow_mut() = Some(CapturedEdge { period_ticks: 1000, high_ticks: 484 });
    let temp2 = I32F32::from_bits(driver.read_temperature(2).unwrap().bits);

    // Expected: 25 + 0.8 * (35 - 25) = 33
    assert!(temp2 > I32F32::from_num(32) && temp2 < I32F32::from_num(34));
}

#[test]
fn test_invalid_signal() {
    let hal = MockHal { next_data: RefCell::new(None) };
    let mut driver = Smt160Driver::new(hal, Config::industrial(), 0).init(1000).unwrap();

    // Active > Period
    *driver.hal_mut().next_data.borrow_mut() = Some(CapturedEdge { period_ticks: 1000, high_ticks: 1200 });
    let result = driver.read_temperature(1);

    assert!(result.is_none());
    assert!(driver.status().contains(Smt160Status::OUT_OF_BOUNDS));
}

#[test]
fn test_reinit_resets_state() {
    let hal = MockHal { next_data: RefCell::new(None) };
    let mut driver = Smt160Driver::new(hal, Config::industrial(), 0).init(1000).unwrap();

    // Set some state
    *driver.hal_mut().next_data.borrow_mut() = Some(CapturedEdge { period_ticks: 1000, high_ticks: 437 });
    driver.read_temperature(0);

    // Simulate some ticks (one millisecond per poll) without data
    for now_ms in 1..=1000u64 {
        driver.read_temperature(now_ms);
    }
    assert!(driver.status().contains(Smt160Status::SENSOR_TIMEOUT));

    // Re-init
    driver.reinit(1000, 1000).unwrap();

    assert_eq!(driver.status().bits(), 0);
}
