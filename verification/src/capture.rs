//! Decisions of the pin-polling, edge-waiting and timer-capture front ends:
//! which samples become edges, when a measurement times out, and how a
//! hardware capture is fed to the decoder.

use vstd::prelude::*;
use crate::config::{DUTY_CYCLE_OFFSET_BITS, INVERSE_STEP_CONSTANT_BITS};
use crate::decoder::{Smt160Decoder, DecoderState, spec_push_edge, spec_process, wrap_sub, lemma_full_cycle};
use crate::error::Smt160Error;
use crate::fixed_point::Q32;
use crate::hal::{stitch_period, combine_timestamp};
use crate::types::Reading;

verus! {

/// The standard duty-cycle offset.
pub open spec fn std_offset() -> Q32 {
    Q32 { bits: DUTY_CYCLE_OFFSET_BITS }
}

/// The standard inverse step constant.
pub open spec fn std_step() -> Q32 {
    Q32 { bits: INVERSE_STEP_CONSTANT_BITS }
}

/// Maximum number of transitions a high-precision measurement waits for.
pub const MAX_TRANSITIONS: u32 = 100;

/// Whether more than `timeout_ticks` have passed since `start` (modulo 2^64).
pub fn timed_out(start_ticks: u64, now_ticks: u64, timeout_ticks: u64) -> (r: bool)
    ensures
        r == (wrap_sub(now_ticks, start_ticks) > timeout_ticks),
{
    now_ticks.wrapping_sub(start_ticks) > timeout_ticks
}

/// Turns samples of a polled input pin into edges for the decoder.
#[derive(Debug, Clone, Copy, PartialEq, Eq, Structural)]
pub struct EdgeTracker {
    /// The last level seen on the pin.
    pub last_level: bool,
    /// Number of level changes seen (saturating).
    pub transitions: u32,
}

impl EdgeTracker {
    /// A tracker starting from the pin's current level.
    pub fn new(initial_level: bool) -> (r: EdgeTracker)
        ensures
            r.last_level == initial_level,
            r.transitions == 0,
    {
        EdgeTracker { last_level: initial_level, transitions: 0 }
    }

    /// Whether the transition budget of a high-precision measurement is spent.
    pub fn exhausted(&self) -> (r: bool)
        ensures
            r == (self.transitions >= MAX_TRANSITIONS),
    {
        self.transitions >= MAX_TRANSITIONS
    }

    /// Whether `level` differs from the last level seen.
    pub fn changed(&self, level: bool) -> (r: bool)
        ensures
            r == (level != self.last_level),
    {
        level != self.last_level
    }

    /// Feeds a pin sample taken at `timestamp`: a change of level is pushed
    /// to the decoder as an edge (rising when the pin is high), with the
    /// standard transfer-function constants; an unchanged level does nothing.
    pub fn on_sample(&mut self, decoder: &mut Smt160Decoder, level: bool, timestamp: u64) -> (r: Result<Option<Reading>, Smt160Error>)
        ensures
            level != old(self).last_level ==> {
                &&& final(self).last_level == level
                &&& final(self).transitions == if old(self).transitions == u32::MAX { u32::MAX } else { (old(self).transitions + 1) as u32 }
                &&& (final(decoder)@, r) == spec_push_edge(old(decoder)@, level, timestamp, std_offset(), std_step())
            },
            level == old(self).last_level ==> {
                &&& *final(self) == *old(self)
                &&& final(decoder)@ == old(decoder)@
                &&& r == Ok::<Option<Reading>, Smt160Error>(None)
            },
    {
        if level == self.last_level {
            return Ok(None);
        }
        self.last_level = level;
        self.transitions = self.transitions.saturating_add(1);
        decoder.push_edge_timestamp(
            level,
            timestamp,
            Q32::from_bits(DUTY_CYCLE_OFFSET_BITS),
            Q32::from_bits(INVERSE_STEP_CONSTANT_BITS),
        )
    }
}

/// One polling step of a measurement with a timeout, started at
/// `start_ticks`, with the pin at `level` at time `now_ticks`. Returns the
/// measurement's outcome once it is over: `Timeout` when more than
/// `timeout_ticks` have passed; otherwise the sample is fed to the decoder
/// (as `EdgeTracker::on_sample`), and a reading or a decoding error ends it.
pub fn timeout_read_step(
    tracker: &mut EdgeTracker,
    decoder: &mut Smt160Decoder,
    level: bool,
    now_ticks: u64,
    start_ticks: u64,
    timeout_ticks: u64,
) -> (r: Option<Result<Reading, Smt160Error>>)
    ensures
        wrap_sub(now_ticks, start_ticks) > timeout_ticks ==> {
            &&& r == Some(Err::<Reading, Smt160Error>(Smt160Error::Timeout))
            &&& *final(tracker) == *old(tracker)
            &&& final(decoder)@ == old(decoder)@
        },
        wrap_sub(now_ticks, start_ticks) <= timeout_ticks && level == old(tracker).last_level ==> {
            &&& r is None
            &&& *final(tracker) == *old(tracker)
            &&& final(decoder)@ == old(decoder)@
        },
        wrap_sub(now_ticks, start_ticks) <= timeout_ticks && level != old(tracker).last_level ==> {
            let (s, res) = spec_push_edge(old(decoder)@, level, now_ticks, std_offset(), std_step());
            &&& final(tracker).last_level == level
            &&& final(tracker).transitions == if old(tracker).transitions == u32::MAX { u32::MAX } else { (old(tracker).transitions + 1) as u32 }
            &&& final(decoder)@ == s
            &&& r == match res {
                Err(e) => Some(Err(e)),
                Ok(Some(reading)) => Some(Ok(reading)),
                Ok(None) => None,
            }
        },
{
    if timed_out(start_ticks, now_ticks, timeout_ticks) {
        return Some(Err(Smt160Error::Timeout));
    }
    match tracker.on_sample(decoder, level, now_ticks) {
        Err(e) => Some(Err(e)),
        Ok(Some(reading)) => Some(Ok(reading)),
        Ok(None) => None,
    }
}

/// Longest time, in milliseconds, a high-precision measurement may take
/// (interrupts are disabled meanwhile).
pub const HIGH_PRECISION_BUDGET_MS: u64 = 50;

/// The time budget of a high-precision measurement, in ticks of a
/// `clock_mhz` MHz timer clock.
pub fn high_precision_budget_ticks(clock_mhz: u32) -> (r: u64)
    ensures
        r == HIGH_PRECISION_BUDGET_MS * 1000 * clock_mhz,
{
    let c = clock_mhz as u64;
    assert(50_000 * c <= 50_000 * 0xffff_ffffu64) by (nonlinear_arith)
        requires c <= 0xffff_ffffu64;
    HIGH_PRECISION_BUDGET_MS * 1000 * c
}

/// One polling step of a high-precision measurement started at
/// `start_ticks`, with the pin at `level` at time `now_ticks`. Returns the
/// measurement's outcome once it is over: `Timeout` when more than
/// `budget_ticks` have passed; otherwise a change of level is fed to the
/// decoder (as `EdgeTracker::on_sample`), and a reading, a decoding error,
/// or `SequenceViolation` when the transition budget is spent, ends it.
pub fn high_precision_step(
    tracker: &mut EdgeTracker,
    decoder: &mut Smt160Decoder,
    level: bool,
    now_ticks: u64,
    start_ticks: u64,
    budget_ticks: u64,
) -> (r: Option<Result<Reading, Smt160Error>>)
    ensures
        wrap_sub(now_ticks, start_ticks) > budget_ticks ==> {
            &&& r == Some(Err::<Reading, Smt160Error>(Smt160Error::Timeout))
            &&& *final(tracker) == *old(tracker)
            &&& final(decoder)@ == old(decoder)@
        },
        wrap_sub(now_ticks, start_ticks) <= budget_ticks && level == old(tracker).last_level ==> {
            &&& r is None
            &&& *final(tracker) == *old(tracker)
            &&& final(decoder)@ == old(decoder)@
        },
        wrap_sub(now_ticks, start_ticks) <= budget_ticks && level != old(tracker).last_level ==> {
            let (s, res) = spec_push_edge(old(decoder)@, level, now_ticks, std_offset(), std_step());
            &&& final(tracker).last_level == level
            &&& final(tracker).transitions == if old(tracker).transitions == u32::MAX { u32::MAX } else { (old(tracker).transitions + 1) as u32 }
            &&& final(decoder)@ == s
            &&& r == match res {
                Err(e) => Some(Err(e)),
                Ok(Some(reading)) => Some(Ok(reading)),
                Ok(None) => if final(tracker).transitions >= MAX_TRANSITIONS {
                    Some(Err(Smt160Error::SequenceViolation))
                } else {
                    None
                },
            }
        },
{
    if timed_out(start_ticks, now_ticks, budget_ticks) {
        return Some(Err(Smt160Error::Timeout));
    }
    if !tracker.changed(level) {
        return None;
    }
    match tracker.on_sample(decoder, level, now_ticks) {
        Err(e) => Some(Err(e)),
        Ok(Some(reading)) => Some(Ok(reading)),
        Ok(None) => {
            if tracker.exhausted() {
                Some(Err(Smt160Error::SequenceViolation))
            } else {
                None
            }
        },
    }
}

/// Feeds an edge reported by an edge-waiting input: rising when the pin is
/// high after the edge. On a decoding error the decoder is reset before the
/// error is returned.
pub fn on_waited_edge(decoder: &mut Smt160Decoder, level_after_edge: bool, timestamp: u64) -> (r: Result<Option<Reading>, Smt160Error>)
    ensures
        ({
            let (s, res) = spec_push_edge(old(decoder)@, level_after_edge, timestamp, std_offset(), std_step());
            &&& r == res
            &&& res is Ok ==> final(decoder)@ == s
            &&& res is Err ==> final(decoder)@ == Smt160Decoder::initial_state(old(decoder)@.clock_mhz)
        }),
{
    let res = decoder.push_edge_timestamp(
        level_after_edge,
        timestamp,
        Q32::from_bits(DUTY_CYCLE_OFFSET_BITS),
        Q32::from_bits(INVERSE_STEP_CONSTANT_BITS),
    );
    if res.is_err() {
        decoder.reset_state();
    }
    res
}

/// The flags and capture registers read in one timer interrupt of the
/// edge-timestamping front end (rising edges on capture 1, falling edges on
/// capture 2, overflows extending the 16-bit counter).
#[derive(Debug, Clone, Copy, PartialEq, Eq, Structural)]
pub struct TimerCaptureEvent {
    /// The counter overflowed.
    pub overflow: bool,
    /// A rising edge was captured, at `rising_capture`.
    pub rising_captured: bool,
    pub rising_capture: u32,
    /// A falling edge was captured, at `falling_capture`.
    pub falling_captured: bool,
    pub falling_capture: u32,
}

/// The timestamp of a capture: the overflow count above the counter value.
pub open spec fn capture_timestamp(overflows: u32, capture: u32) -> u64 {
    ((overflows as u64) << 16u64) | (capture as u64)
}

/// The overflow count after an interrupt.
pub open spec fn overflows_after(overflows: u32, ev: TimerCaptureEvent) -> u32 {
    if ev.overflow { if overflows == u32::MAX { 0 } else { (overflows + 1) as u32 } } else { overflows }
}

/// Decoder state and results (rising edge, then falling edge) of an
/// interrupt; an edge that was not captured gives `Ok(None)`.
pub open spec fn spec_timer_interrupt(s: DecoderState, overflows: u32, ev: TimerCaptureEvent) -> (
    DecoderState,
    Result<Option<Reading>, Smt160Error>,
    Result<Option<Reading>, Smt160Error>,
) {
    let o = overflows_after(overflows, ev);
    let (s1, r1) = if ev.rising_captured {
        spec_push_edge(s, true, capture_timestamp(o, ev.rising_capture), std_offset(), std_step())
    } else {
        (s, Ok(None))
    };
    let (s2, r2) = if ev.falling_captured {
        spec_push_edge(s1, false, capture_timestamp(o, ev.falling_capture), std_offset(), std_step())
    } else {
        (s1, Ok(None))
    };
    (s2, r1, r2)
}

/// Handles one timer interrupt: counts an overflow (wrapping), then pushes
/// a captured rising edge and a captured falling edge, in that order, with
/// their extended timestamps. Returns the results of the two edges.
pub fn on_timer_interrupt(decoder: &mut Smt160Decoder, overflows: &mut u32, ev: TimerCaptureEvent) -> (r: (
    Result<Option<Reading>, Smt160Error>,
    Result<Option<Reading>, Smt160Error>,
))
    ensures
        *final(overflows) == overflows_after(*old(overflows), ev),
        (final(decoder)@, r.0, r.1) == spec_timer_interrupt(old(decoder)@, *old(overflows), ev),
{
    if ev.overflow {
        *overflows = overflows.wrapping_add(1);
    }
    let rising = if ev.rising_captured {
        let t = combine_timestamp(*overflows, ev.rising_capture);
        decoder.push_edge(true, t)
    } else {
        Ok(None)
    };
    let falling = if ev.falling_captured {
        let t = combine_timestamp(*overflows, ev.falling_capture);
        decoder.push_edge(false, t)
    } else {
        Ok(None)
    };
    (rising, falling)
}

/// The decoder state after the three edges of a hardware-captured cycle.
pub open spec fn spec_capture_cycle(s: DecoderState, period: u64, high: u64) -> (DecoderState, Result<Option<Reading>, Smt160Error>) {
    let s0 = Smt160Decoder::initial_state(s.clock_mhz);
    let s1 = spec_push_edge(s0, true, 0, std_offset(), std_step()).0;
    let s2 = spec_push_edge(s1, false, high, std_offset(), std_step()).0;
    spec_push_edge(s2, true, period, std_offset(), std_step())
}

/// Decodes a cycle captured in timer reset mode: the period register, the
/// high-time register and the timer overflows counted during the cycle.
/// The decoder is reset and fed a rising edge at 0, a falling edge at the
/// high time and a rising edge at the stitched period.
pub fn decode_capture_cycle(decoder: &mut Smt160Decoder, period_raw: u32, high_raw: u32, overflows: u32) -> (r: Result<Option<Reading>, Smt160Error>)
    ensures
        (final(decoder)@, r) == spec_capture_cycle(old(decoder)@, stitch_period_value(period_raw, overflows), high_raw as u64),
{
    let period_ticks = stitch_period(period_raw, overflows);
    let high_ticks = high_raw as u64;
    decoder.reset_state();
    decoder.push_edge(true, 0)?;
    decoder.push_edge(false, high_ticks)?;
    decoder.push_edge(true, period_ticks)
}

/// The stitched period of a capture.
pub open spec fn stitch_period_value(period_raw: u32, overflows: u32) -> u64 {
    (period_raw + overflows * 0x1_0000) as u64
}

/// A hardware-captured cycle is decoded as one cycle of the stitched period
/// and the high time, from a freshly reset decoder.
pub proof fn lemma_capture_cycle_is_one_cycle(s: DecoderState, period: u64, high: u64)
    ensures
        ({
            let s0 = Smt160Decoder::initial_state(s.clock_mhz);
            let p = spec_process(
                DecoderState { last_rise: Some(period), last_fall: Some(high), last_edge: Some(period), ..s0 },
                period, high, std_offset(), std_step());
            &&& spec_capture_cycle(s, period, high).0 == p.0
            &&& spec_capture_cycle(s, period, high).1 == (match p.1 { Ok(r) => Ok(Some(r)), Err(e) => Err(e) })
        }),
{
    let s0 = Smt160Decoder::initial_state(s.clock_mhz);
    lemma_full_cycle(s0, 0, high, period, std_offset(), std_step());
    assert(wrap_sub(period, 0) == period);
    assert(wrap_sub(high, 0) == high);
}

} // verus!
