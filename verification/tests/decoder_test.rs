use smt160_driver::capture::{
    decode_capture_cycle, high_precision_budget_ticks, high_precision_step, on_timer_interrupt, on_waited_edge, timed_out, timeout_read_step,
    EdgeTracker, TimerCaptureEvent, MAX_TRANSITIONS,
};
use smt160_driver::config::{DUTY_CYCLE_OFFSET_BITS, INVERSE_STEP_CONSTANT_BITS};
use smt160_driver::decoder::Smt160Decoder;
use smt160_driver::error::Smt160Error;
use smt160_driver::fixed_point::{Q16, Q32};

fn offsets() -> (Q32, Q32) {
    (Q32::from_bits(DUTY_CYCLE_OFFSET_BITS), Q32::from_bits(INVERSE_STEP_CONSTANT_BITS))
}

#[test]
fn full_cycle_gives_one_reading() {
    let mut d = Smt160Decoder::new();
    assert_eq!(d.push_edge(true, 0), Ok(None));
    assert_eq!(d.push_edge(false, 437), Ok(None));
    let r = d.push_edge(true, 1000).unwrap().unwrap();
    assert_eq!(r.temperature_celsius, Q16 { bits: 1631428 });
    assert_eq!(r.status.bits(), 0);
}

#[test]
fn moving_average_of_two_cycles() {
    let mut d = Smt160Decoder::new_standalone(72);
    let (off, step) = offsets();
    assert_eq!(d.process_raw_ticks(1000, 437, off, step).unwrap().temperature_celsius, Q16 { bits: 1631428 });
    assert_eq!(d.process_raw_ticks(1000, 484, off, step).unwrap().temperature_celsius, Q16 { bits: 1636492 });
}

#[test]
fn falling_edge_first_is_ignored() {
    let mut d = Smt160Decoder::new();
    assert_eq!(d.push_edge(false, 10), Ok(None));
    assert_eq!(d.push_edge(true, 100), Ok(None));
    assert_eq!(d.push_edge(false, 537), Ok(None));
    assert!(d.push_edge(true, 1100).unwrap().is_some());
}

#[test]
fn timestamps_wrap_around() {
    let mut d = Smt160Decoder::new();
    let start = u64::MAX - 500;
    assert_eq!(d.push_edge(true, start), Ok(None));
    assert_eq!(d.push_edge(false, start.wrapping_add(437)), Ok(None));
    let r = d.push_edge(true, start.wrapping_add(1000)).unwrap().unwrap();
    assert_eq!(r.temperature_celsius, Q16 { bits: 1631428 });
}

#[test]
fn rejected_cycle_keeps_filter() {
    let mut d = Smt160Decoder::new();
    let (off, step) = offsets();
    assert_eq!(d.process_raw_ticks(1000, 437, off, step).unwrap().temperature_celsius, Q16 { bits: 1631428 });
    assert_eq!(d.process_raw_ticks(1000, 1200, off, step), Err(Smt160Error::InvalidSignal));
    assert_eq!(d.process_raw_ticks(0, 0, off, step), Err(Smt160Error::SensorTimeout));
    assert_eq!(d.process_raw_ticks(1000, 990, off, step), Err(Smt160Error::OutOfBounds));
    // The next good cycle is averaged with the first one only.
    assert_eq!(d.process_raw_ticks(1000, 484, off, step).unwrap().temperature_celsius, Q16 { bits: 1636492 });
}

#[test]
fn reset_clears_the_filter() {
    let mut d = Smt160Decoder::new();
    let (off, step) = offsets();
    d.process_raw_ticks(1000, 437, off, step).unwrap();
    d.reset_state();
    assert_eq!(d.process_raw_ticks(1000, 484, off, step).unwrap().temperature_celsius, Q16 { bits: 2279714 });
}

#[test]
fn batch_skips_empty_words_and_stops_on_error() {
    let mut d = Smt160Decoder::new();
    let (off, step) = offsets();
    let words = [0u32, (1000 << 16) | 437, 0x0000_1234, (1000 << 16) | 484];
    let r = d.process_batch(&words, off, step).unwrap().unwrap();
    assert_eq!(r.temperature_celsius, Q16 { bits: 1636492 });
    let mut d2 = Smt160Decoder::new();
    assert_eq!(d2.process_batch(&[], off, step), Ok(None));
    let bad = [(1000 << 16) | 437, (1000 << 16) | 1200, (1000 << 16) | 484];
    assert_eq!(d2.process_batch(&bad, off, step), Err(Smt160Error::InvalidSignal));
}

#[test]
fn edge_tracker_feeds_changes_only() {
    let mut d = Smt160Decoder::new();
    let mut t = EdgeTracker::new(false);
    assert!(!t.exhausted());
    assert!(t.changed(true));
    assert_eq!(t.on_sample(&mut d, false, 5), Ok(None));
    assert_eq!(t.transitions, 0);
    assert_eq!(t.on_sample(&mut d, true, 0), Ok(None));
    assert_eq!(t.on_sample(&mut d, true, 200), Ok(None));
    assert_eq!(t.on_sample(&mut d, false, 437), Ok(None));
    let r = t.on_sample(&mut d, true, 1000).unwrap().unwrap();
    assert_eq!(r.temperature_celsius, Q16 { bits: 1631428 });
    assert_eq!(t.transitions, 3);
    let full = EdgeTracker { last_level: true, transitions: MAX_TRANSITIONS };
    assert!(full.exhausted());
}

#[test]
fn waited_edge_error_resets_decoder() {
    let mut d = Smt160Decoder::new();
    assert_eq!(on_waited_edge(&mut d, true, 0), Ok(None));
    assert_eq!(on_waited_edge(&mut d, false, 1200), Ok(None));
    assert_eq!(on_waited_edge(&mut d, true, 1000), Err(Smt160Error::InvalidSignal));
    // After the reset a whole new cycle is needed.
    assert_eq!(on_waited_edge(&mut d, false, 1437), Ok(None));
    assert_eq!(on_waited_edge(&mut d, true, 2000), Ok(None));
    assert_eq!(on_waited_edge(&mut d, false, 2437), Ok(None));
    assert!(on_waited_edge(&mut d, true, 3000).unwrap().is_some());
}

#[test]
fn hardware_capture_cycle() {
    let mut d = Smt160Decoder::new();
    let r = decode_capture_cycle(&mut d, 1000, 437, 0).unwrap().unwrap();
    assert_eq!(r.temperature_celsius, Q16 { bits: 1631428 });
    // One overflow stretches the period to 66536 ticks: far too low a duty cycle.
    assert_eq!(decode_capture_cycle(&mut d, 1000, 437, 1), Err(Smt160Error::OutOfBounds));
    // Each capture restarts from a reset decoder: no averaging with earlier cycles.
    let r2 = decode_capture_cycle(&mut d, 1000, 484, 0).unwrap().unwrap();
    assert_eq!(r2.temperature_celsius, Q16 { bits: 2279714 });
}

#[test]
fn timeout_check_wraps() {
    assert!(!timed_out(100, 150, 50));
    assert!(timed_out(100, 151, 50));
    assert!(!timed_out(u64::MAX - 10, 20, 50));
    assert!(timed_out(u64::MAX - 10, 60, 50));
}

fn event(overflow: bool, rising: Option<u32>, falling: Option<u32>) -> TimerCaptureEvent {
    TimerCaptureEvent {
        overflow,
        rising_captured: rising.is_some(),
        rising_capture: rising.unwrap_or(0),
        falling_captured: falling.is_some(),
        falling_capture: falling.unwrap_or(0),
    }
}

#[test]
fn timer_interrupts_timestamp_edges() {
    let mut d = Smt160Decoder::new();
    let mut overflows = 0u32;
    assert_eq!(on_timer_interrupt(&mut d, &mut overflows, event(false, Some(100), None)), (Ok(None), Ok(None)));
    assert_eq!(on_timer_interrupt(&mut d, &mut overflows, event(false, None, Some(537))), (Ok(None), Ok(None)));
    let (rise, fall) = on_timer_interrupt(&mut d, &mut overflows, event(false, Some(1100), None));
    assert_eq!(rise.unwrap().unwrap().temperature_celsius, Q16 { bits: 1631428 });
    assert_eq!(fall, Ok(None));
    // An overflow extends the counter: the next rising edge is at 65536 + 100.
    let (rise, _) = on_timer_interrupt(&mut d, &mut overflows, event(true, None, None));
    assert_eq!(rise, Ok(None));
    assert_eq!(overflows, 1);
    let mut wrap = u32::MAX;
    on_timer_interrupt(&mut d, &mut wrap, event(true, None, None));
    assert_eq!(wrap, 0);
}

#[test]
fn timer_interrupt_with_overflow_and_capture() {
    let mut d = Smt160Decoder::new();
    let mut overflows = 0u32;
    on_timer_interrupt(&mut d, &mut overflows, event(false, Some(65_000), None));
    on_timer_interrupt(&mut d, &mut overflows, event(false, None, Some(65_437)));
    // The overflow is counted before the capture: the edge is at 65536 + 464.
    let (rise, _) = on_timer_interrupt(&mut d, &mut overflows, event(true, Some(464), None));
    assert_eq!(rise.unwrap().unwrap().temperature_celsius, Q16 { bits: 1631428 });
}

#[test]
fn decoding_continues_cycle_after_cycle() {
    let mut d = Smt160Decoder::new();
    d.push_edge(true, 0).unwrap();
    d.push_edge(false, 437).unwrap();
    assert!(d.push_edge(true, 1000).unwrap().is_some());
    assert_eq!(d.push_edge(false, 1484), Ok(None));
    let r = d.push_edge(true, 2000).unwrap().unwrap();
    assert_eq!(r.temperature_celsius, Q16 { bits: 1636492 });
}

#[test]
fn default_decoder_is_a_microsecond_decoder() {
    let mut d = Smt160Decoder::default();
    d.push_edge(true, 0).unwrap();
    d.push_edge(false, 437).unwrap();
    assert_eq!(d.push_edge(true, 1000).unwrap().unwrap().temperature_celsius, Q16 { bits: 1631428 });
}

#[test]
fn high_precision_measurement_steps() {
    let mut d = Smt160Decoder::new_standalone(72);
    assert_eq!(d.clock_mhz(), 72);
    let budget = high_precision_budget_ticks(d.clock_mhz());
    assert_eq!(budget, 3_600_000);
    let mut t = EdgeTracker::new(false);
    // No change: nothing happens.
    assert_eq!(high_precision_step(&mut t, &mut d, false, 10, 0, budget), None);
    assert_eq!(t.transitions, 0);
    assert_eq!(high_precision_step(&mut t, &mut d, true, 100, 0, budget), None);
    assert_eq!(high_precision_step(&mut t, &mut d, false, 537, 0, budget), None);
    let r = high_precision_step(&mut t, &mut d, true, 1100, 0, budget).unwrap().unwrap();
    assert_eq!(r.temperature_celsius, Q16 { bits: 1631428 });
}

#[test]
fn high_precision_measurement_is_bounded() {
    let mut d = Smt160Decoder::new();
    let mut t = EdgeTracker::new(false);
    // A pin that never toggles: the time budget ends the measurement.
    assert_eq!(high_precision_step(&mut t, &mut d, false, 50_000, 0, 50_000), None);
    assert_eq!(high_precision_step(&mut t, &mut d, false, 50_001, 0, 50_000), Some(Err(Smt160Error::Timeout)));
    // A pin that toggles without ever completing a valid cycle: the
    // transition budget ends it.
    let mut t2 = EdgeTracker { last_level: false, transitions: MAX_TRANSITIONS - 1 };
    let mut d2 = Smt160Decoder::new();
    assert_eq!(high_precision_step(&mut t2, &mut d2, true, 5, 0, 50_000), Some(Err(Smt160Error::SequenceViolation)));
    // A decoding error ends it with that error.
    let mut t3 = EdgeTracker::new(false);
    let mut d3 = Smt160Decoder::new();
    high_precision_step(&mut t3, &mut d3, true, 0, 0, 50_000);
    high_precision_step(&mut t3, &mut d3, false, 1200, 0, 50_000);
    assert_eq!(high_precision_step(&mut t3, &mut d3, true, 1000, 0, 50_000), Some(Err(Smt160Error::InvalidSignal)));
}

#[test]
fn timeout_read_steps() {
    let mut d = Smt160Decoder::new();
    let mut t = EdgeTracker::new(false);
    assert_eq!(timeout_read_step(&mut t, &mut d, true, 100, 100, 5000), None);
    assert_eq!(timeout_read_step(&mut t, &mut d, false, 537, 100, 5000), None);
    assert_eq!(timeout_read_step(&mut t, &mut d, false, 600, 100, 5000), None);
    let r = timeout_read_step(&mut t, &mut d, true, 1100, 100, 5000).unwrap().unwrap();
    assert_eq!(r.temperature_celsius, Q16 { bits: 1631428 });
    assert_eq!(timeout_read_step(&mut t, &mut d, false, 5101, 100, 5000), Some(Err(Smt160Error::Timeout)));
    let mut t2 = EdgeTracker::new(false);
    let mut d2 = Smt160Decoder::new();
    timeout_read_step(&mut t2, &mut d2, true, 0, 0, 5000);
    timeout_read_step(&mut t2, &mut d2, false, 1200, 0, 5000);
    assert_eq!(timeout_read_step(&mut t2, &mut d2, true, 1000, 0, 5000), Some(Err(Smt160Error::InvalidSignal)));
}
