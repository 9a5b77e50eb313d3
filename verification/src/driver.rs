//! The SMT160 driver: typestate lifecycle, sensor watchdog, signal-quality
//! flags, decoding, correction, calibration, filtering and threshold
//! notifications.

use core::marker::PhantomData;
use vstd::prelude::*;
use crate::calibration::{Calibration, LinearCalibration};
use crate::config::Config;
use crate::error::Smt160Error;
use crate::fixed_point::{Q32, q32_one, fits_i64, mul_bits, min_int, max_int};
use crate::hal::{CapturedEdge, Smt160Hal};
use crate::math::{
    SignalDecoder, spec_decode, spec_nlc, spec_default_nlc_table, spec_adaptive_filter, nlc_fits,
    filter_alpha, lemma_default_nlc_range, lemma_mul_bits_shrinks, lemma_ewma_between,
};
use crate::status::Smt160Status;
use crate::telemetry::Diagnostics;
use crate::types::{Ready, Smt160Observer, TriggerEdge, Uninitialized};

verus! {

/// Noise limit: standard deviation above 1.5 % (0.015) of the mean period, raw `Q32` bits.
pub const NOISE_RATIO_BITS: i64 = 64424509;

/// Events of one poll for the observer.
#[derive(Debug, Clone, Copy, PartialEq, Eq, Structural)]
pub struct Notifications {
    /// The filtered temperature, when a threshold notification is due.
    pub threshold_crossed: Option<Q32>,
    /// The sensor was newly found silent.
    pub signal_lost: bool,
    /// The signal newly became noisy.
    pub hardware_error: bool,
}

/// `bits` with flag `f` set when `on`, cleared otherwise.
pub open spec fn with_flag(bits: u8, f: u8, on: bool) -> u8 {
    if on { bits | f } else { bits & !f }
}

/// Time since `last` (0 when the clock went backwards).
pub open spec fn elapsed_ms(last: u64, now: u64) -> int {
    if now >= last { now - last } else { 0 }
}

/// Peak-to-peak period variation exceeds `pct` of the mean period.
pub open spec fn jitter_exceeded(d: Diagnostics, pct: Q32) -> bool {
    let p2p = if d.max_ticks >= d.min_ticks { d.max_ticks - d.min_ticks } else { 0 };
    let limit = mul_bits(d.mean_ticks as int, pct.bits as int);
    d.mean_ticks > 0 && fits_i64(limit) && p2p * q32_one() > limit
}

/// The standard deviation of the period exceeds 1.5 % of its mean.
pub open spec fn noise_exceeded(d: Diagnostics) -> bool {
    d.mean_ticks > 0 && d.std_dev_bits() > mul_bits(d.mean_ticks as int, NOISE_RATIO_BITS as int)
}

/// The period recorded in the statistics for a captured period.
pub open spec fn recorded_ticks(period: u64) -> u32 {
    (period % 0x1_0000_0000) as u32
}

/// `d2` is the statistics `d` after a captured period: recorded when that
/// does not overflow, unchanged otherwise.
pub open spec fn stats_after(d: Diagnostics, period: u64, d2: Diagnostics) -> bool {
    if d.update_fits(recorded_ticks(period)) {
        d2.is_update_of(d, recorded_ticks(period))
    } else {
        d2 == d
    }
}

/// The non-linearity correction with the driver's table, or `None` when a
/// custom table's interpolation overflows.
pub open spec fn corrected_value(raw: int, table: Option<&'static [(Q32, Q32)]>) -> Option<int> {
    match table {
        Some(t) => if nlc_fits(raw, t@) { Some(spec_nlc(raw, t@)) } else { None },
        None => Some(spec_nlc(raw, spec_default_nlc_table())),
    }
}

/// The corrected and calibrated value of a decoded temperature, or `None`
/// when the correction or the calibration overflows.
pub open spec fn calibrated_value(raw: int, table: Option<&'static [(Q32, Q32)]>, cal: LinearCalibration) -> Option<int> {
    match corrected_value(raw, table) {
        None => None,
        Some(c) => if cal.calibrate_fits(c) { Some(cal.spec_calibrate(c)) } else { None },
    }
}

/// A crossing from `was` to `above` matches the configured edge.
pub open spec fn edge_matches(edge: TriggerEdge, above: bool, was: bool) -> bool {
    match edge {
        TriggerEdge::Rising => above && !was,
        TriggerEdge::Falling => !(above && !was),
        TriggerEdge::Both => true,
    }
}

/// Whether the filtered temperature is notified: on every reading without a
/// threshold, otherwise on a crossing of the threshold that matches the edge.
pub open spec fn notice_due(threshold: Option<Q32>, edge: TriggerEdge, last_above: Option<bool>, filtered: int) -> bool {
    match threshold {
        None => true,
        Some(th) => {
            let above = filtered > th.bits;
            match last_above {
                Some(was) => above != was && edge_matches(edge, above, was),
                None => false,
            }
        },
    }
}

/// Which side of the threshold the filtered temperature was on.
pub open spec fn next_above(threshold: Option<Q32>, last_above: Option<bool>, filtered: int) -> Option<bool> {
    match threshold {
        None => last_above,
        Some(th) => Some(filtered > th.bits),
    }
}

/// The driver, generic over its hardware adapter `H`, its typestate `S`
/// (`Uninitialized` or `Ready`) and its observer `O`. Times are in
/// milliseconds of a monotonic clock.
pub struct Smt160Driver<H, S, O = ()> {
    /// The hardware adapter.
    pub hal: H,
    /// Receiver of event notifications.
    pub observer: Option<O>,
    /// Typestate marker.
    pub state: PhantomData<S>,
    /// Timing, jitter tolerance and threshold settings.
    pub config: Config,
    /// Last filtered temperature.
    pub last_temp: Option<Q32>,
    /// Whether the last filtered temperature was above the threshold.
    pub last_above_threshold: Option<bool>,
    /// Last captured period, in ticks.
    pub last_period: u64,
    /// Number of readings produced.
    pub sample_count: u32,
    /// Time of the last data (or of initialization).
    pub last_update_ms: u64,
    /// Status flags.
    pub status: Smt160Status,
    /// Statistics of the captured period.
    pub diagnostics: Diagnostics,
    /// Linear calibration applied after correction.
    pub calibration: LinearCalibration,
    /// Custom non-linearity correction table (the default one when `None`).
    pub nlc_table: Option<&'static [(Q32, Q32)]>,
}

impl<H, S, O> Smt160Driver<H, S, O> {
    /// The setting the driver relies on: fewer than 2^31 recorded periods,
    /// so that the statistics' count is a representable fixed-point value.
    pub open spec fn wf(&self) -> bool {
        self.diagnostics.count <= 0x7fff_ffff
    }

    /// Whether the driver's state is one it can work with: fewer than 2^31
    /// recorded periods.
    pub fn settings_supported(&self) -> (r: bool)
        ensures
            r == self.wf(),
    {
        self.diagnostics.count <= 0x7fff_ffff
    }

    /// `new` is `old` after one poll at `now` in which `edge` was captured
    /// (or nothing, when `None`), returning `r` and the events `n`.
    pub open spec fn polled(old: Self, new: Self, edge: Option<CapturedEdge>, now: u64, r: Option<Q32>, n: Notifications) -> bool {
        &&& new.hal == old.hal
        &&& new.observer == old.observer
        &&& new.config == old.config
        &&& new.calibration == old.calibration
        &&& new.nlc_table == old.nlc_table
        &&& match edge {
            None => {
                let lost = elapsed_ms(old.last_update_ms, now) >= old.config.timeout_ms;
                &&& r is None
                &&& new.status.bits == if lost { old.status.bits | Smt160Status::SENSOR_TIMEOUT } else { old.status.bits }
                &&& n == (Notifications {
                    threshold_crossed: None,
                    signal_lost: lost && old.status.bits & Smt160Status::SENSOR_TIMEOUT != Smt160Status::SENSOR_TIMEOUT,
                    hardware_error: false,
                })
                &&& new.last_temp == old.last_temp
                &&& new.last_above_threshold == old.last_above_threshold
                &&& new.last_period == old.last_period
                &&& new.sample_count == old.sample_count
                &&& new.last_update_ms == old.last_update_ms
                &&& new.diagnostics == old.diagnostics
            },
            Some(e) => {
                let d = new.diagnostics;
                let s1 = old.status.bits & !Smt160Status::SENSOR_TIMEOUT;
                let s2 = with_flag(s1, Smt160Status::JITTER_DETECTED, jitter_exceeded(d, old.config.jitter_threshold_pct));
                let s3 = with_flag(s2, Smt160Status::SIGNAL_NOISY, noise_exceeded(d));
                &&& new.last_update_ms == now
                &&& new.last_period == e.period_ticks
                &&& stats_after(old.diagnostics, e.period_ticks, d)
                &&& n.signal_lost == false
                &&& n.hardware_error == (noise_exceeded(d) && s2 & Smt160Status::SIGNAL_NOISY != Smt160Status::SIGNAL_NOISY)
                &&& match spec_decode(e.period_ticks, e.high_ticks) {
                    Ok(raw) => match calibrated_value(raw.bits as int, old.nlc_table, old.calibration) {
                        Some(calibrated) => {
                            let filtered = spec_adaptive_filter(calibrated, old.last_temp, old.sample_count);
                            &&& r == Some(Q32 { bits: filtered as i64 })
                            &&& new.status.bits == s3 & !Smt160Status::OUT_OF_BOUNDS
                            &&& new.last_temp == Some(Q32 { bits: filtered as i64 })
                            &&& new.sample_count == if old.sample_count == u32::MAX { u32::MAX } else { (old.sample_count + 1) as u32 }
                            &&& new.last_above_threshold == next_above(old.config.threshold, old.last_above_threshold, filtered)
                            &&& n.threshold_crossed == if notice_due(old.config.threshold, old.config.trigger_edge, old.last_above_threshold, filtered) {
                                Some(Q32 { bits: filtered as i64 })
                            } else {
                                None
                            }
                        },
                        None => {
                            &&& r is None
                            &&& new.status.bits == s3 | Smt160Status::OUT_OF_BOUNDS
                            &&& new.last_temp == old.last_temp
                            &&& new.sample_count == old.sample_count
                            &&& new.last_above_threshold == old.last_above_threshold
                            &&& n.threshold_crossed is None
                        },
                    },
                    Err(_) => {
                        &&& r is None
                        &&& new.status.bits == s3 | Smt160Status::OUT_OF_BOUNDS
                        &&& new.last_temp == old.last_temp
                        &&& new.sample_count == old.sample_count
                        &&& new.last_above_threshold == old.last_above_threshold
                        &&& n.threshold_crossed is None
                    },
                }
            },
        }
    }

    /// Whether the period's peak-to-peak variation exceeds the configured
    /// jitter tolerance.
    fn period_jitter_exceeded(&self) -> (r: bool)
        ensures
            r == jitter_exceeded(self.diagnostics, self.config.jitter_threshold_pct),
    {
        let p2p = self.diagnostics.jitter_p2p();
        let mean = self.diagnostics.mean_period();
        if mean.bits <= 0 {
            return false;
        }
        match mean.checked_mul(self.config.jitter_threshold_pct) {
            Some(limit) => (p2p as i128) * 0x1_0000_0000i128 > limit.bits as i128,
            None => false,
        }
    }

    /// One poll: `edge` is the captured cycle (`None` when there is no new
    /// data) and `now_ms` the current time. Without data, the timeout flag is
    /// raised once the configured time has passed since the last data. With
    /// data, the watchdog is reset, the statistics and the jitter and noise
    /// flags are updated, and the cycle is decoded, corrected, calibrated and
    /// filtered; an undecodable cycle raises the out-of-bounds flag.
    pub fn process_poll(&mut self, edge: Option<CapturedEdge>, now_ms: u64) -> (r: (Option<Q32>, Notifications))
        requires
            old(self).wf(),
        ensures
            final(self).wf(),
            Self::polled(*old(self), *final(self), edge, now_ms, r.0, r.1),
    {
        let mut notes = Notifications { threshold_crossed: None, signal_lost: false, hardware_error: false };
        let e = match edge {
            None => {
                let elapsed = now_ms.saturating_sub(self.last_update_ms);
                if elapsed >= self.config.timeout_ms as u64 {
                    if !self.status.contains(Smt160Status::SENSOR_TIMEOUT) {
                        notes.signal_lost = true;
                    }
                    self.status.insert(Smt160Status::SENSOR_TIMEOUT);
                }
                return (None, notes);
            },
            Some(e) => e,
        };
        self.last_update_ms = now_ms;
        self.status.remove(Smt160Status::SENSOR_TIMEOUT);
        self.last_period = e.period_ticks;
        let ticks = (e.period_ticks % 0x1_0000_0000) as u32;
        if self.diagnostics.can_update(ticks) {
            self.diagnostics.update(ticks);
        }
        if self.period_jitter_exceeded() {
            self.status.insert(Smt160Status::JITTER_DETECTED);
        } else {
            self.status.remove(Smt160Status::JITTER_DETECTED);
        }
        let sigma = self.diagnostics.std_dev();
        let mean = self.diagnostics.mean_period();
        proof {
            lemma_mul_bits_shrinks(NOISE_RATIO_BITS as int, mean.bits as int);
        }
        let noise_limit = mean.mul(Q32::from_bits(NOISE_RATIO_BITS));
        if mean.bits > 0 && sigma.bits > noise_limit.bits {
            if !self.status.contains(Smt160Status::SIGNAL_NOISY) {
                notes.hardware_error = true;
            }
            self.status.insert(Smt160Status::SIGNAL_NOISY);
        } else {
            self.status.remove(Smt160Status::SIGNAL_NOISY);
        }
        match SignalDecoder::decode(e.period_ticks, e.high_ticks) {
            Ok(raw) => {
                let corrected = match self.nlc_table {
                    Some(table) => SignalDecoder::apply_nlc_checked(raw, table),
                    None => {
                        proof {
                            lemma_default_nlc_range(raw.bits as int);
                        }
                        Some(SignalDecoder::apply_nlc(raw))
                    },
                };
                let calibrated = match corrected {
                    Some(c) => self.calibration.checked_calibrate(c),
                    None => None,
                };
                let calibrated = match calibrated {
                    Some(c) => c,
                    None => {
                        self.status.insert(Smt160Status::OUT_OF_BOUNDS);
                        return (None, notes);
                    },
                };
                self.status.remove(Smt160Status::OUT_OF_BOUNDS);
                let filtered = SignalDecoder::apply_adaptive_filter(calibrated, self.last_temp, self.sample_count);
                match self.config.threshold {
                    Some(threshold) => {
                        let currently_above = filtered.bits > threshold.bits;
                        if let Some(was_above) = self.last_above_threshold {
                            if currently_above != was_above {
                                let is_rising = currently_above && !was_above;
                                let matches_edge = match self.config.trigger_edge {
                                    TriggerEdge::Rising => is_rising,
                                    TriggerEdge::Falling => !is_rising,
                                    TriggerEdge::Both => true,
                                };
                                if matches_edge {
                                    notes.threshold_crossed = Some(filtered);
                                }
                            }
                        }
                        self.last_above_threshold = Some(currently_above);
                    },
                    None => {
                        notes.threshold_crossed = Some(filtered);
                    },
                }
                self.last_temp = Some(filtered);
                self.sample_count = self.sample_count.saturating_add(1);
                (Some(filtered), notes)
            },
            Err(_) => {
                self.status.insert(Smt160Status::OUT_OF_BOUNDS);
                (None, notes)
            },
        }
    }
}

impl<H, S, O: Smt160Observer> Smt160Driver<H, S, O> {
    /// Passes the events of a poll to the observer, if one is attached:
    /// signal loss, then hardware error, then the threshold notification.
    pub fn notify_observer(&self, notes: &Notifications) {
        if let Some(obs) = &self.observer {
            if notes.signal_lost {
                obs.on_signal_lost();
            }
            if notes.hardware_error {
                obs.on_hardware_error();
            }
            if let Some(t) = notes.threshold_crossed {
                obs.on_threshold_crossed(t);
            }
        }
    }
}

impl<H: Smt160Hal> Smt160Driver<H, Uninitialized, ()> {
    /// A driver that has not touched the hardware yet; `initial_instant_ms`
    /// seeds the watchdog.
    pub fn new(hal: H, config: Config, initial_instant_ms: u64) -> (r: Self)
        ensures
            r.hal == hal,
            r.observer is None,
            r.config == config,
            r.last_temp is None,
            r.last_above_threshold is None,
            r.last_period == 0,
            r.sample_count == 0,
            r.last_update_ms == initial_instant_ms,
            r.status.bits == 0,
            r.diagnostics.count == 0,
            r.diagnostics.mean_ticks == 0,
            r.diagnostics.m2_ticks == 0,
            r.diagnostics.min_ticks == u32::MAX,
            r.diagnostics.max_ticks == 0,
            r.calibration.slope.bits == q32_one(),
            r.calibration.offset.bits == 0,
            r.nlc_table is None,
            r.wf(),
    {
        Smt160Driver {
            hal,
            observer: None,
            state: PhantomData,
            config,
            last_temp: None,
            last_above_threshold: None,
            last_period: 0,
            sample_count: 0,
            last_update_ms: initial_instant_ms,
            status: Smt160Status::empty(),
            diagnostics: Diagnostics::new(),
            calibration: LinearCalibration::default(),
            nlc_table: None,
        }
    }

}

impl<H: Smt160Hal, O: Smt160Observer> Smt160Driver<H, Uninitialized, O> {
    /// Attaches an observer of the driver's events (replacing any other).
    pub fn with_observer<P: Smt160Observer>(self, observer: P) -> (r: Smt160Driver<H, Uninitialized, P>)
        ensures
            r.hal == self.hal,
            r.observer == Some(observer),
            r.config == self.config,
            r.last_temp == self.last_temp,
            r.last_above_threshold == self.last_above_threshold,
            r.last_period == self.last_period,
            r.sample_count == self.sample_count,
            r.last_update_ms == self.last_update_ms,
            r.status == self.status,
            r.diagnostics == self.diagnostics,
            r.calibration == self.calibration,
            r.nlc_table == self.nlc_table,
    {
        Smt160Driver {
            hal: self.hal,
            observer: Some(observer),
            state: PhantomData,
            config: self.config,
            last_temp: self.last_temp,
            last_above_threshold: self.last_above_threshold,
            last_period: self.last_period,
            sample_count: self.sample_count,
            last_update_ms: self.last_update_ms,
            status: self.status,
            diagnostics: self.diagnostics,
            calibration: self.calibration,
            nlc_table: self.nlc_table,
        }
    }

    /// Sets up the hardware for a timer clock of `timer_freq` Hz and moves
    /// to the `Ready` state with cleared readings and status; the setup's
    /// error is returned unchanged. The result is `enter_ready` of the
    /// setup's outcome.
    pub fn init(self, timer_freq: u32) -> (r: Result<Smt160Driver<H, Ready, O>, Smt160Error>)
        ensures
            r matches Ok(d) ==> {
                &&& d.observer == self.observer
                &&& d.config == self.config
                &&& d.last_temp is None
                &&& d.last_above_threshold is None
                &&& d.last_period == 0
                &&& d.sample_count == 0
                &&& d.last_update_ms == self.last_update_ms
                &&& d.status.bits == 0
                &&& d.diagnostics == self.diagnostics
                &&& d.calibration == self.calibration
                &&& d.nlc_table == self.nlc_table
                &&& self.wf() ==> d.wf()
            },
    {
        let mut d = self;
        let setup = d.hal.setup(timer_freq);
        d.enter_ready(setup)
    }

    /// The driver after its hardware setup returned `setup`: on success the
    /// `Ready` driver with cleared readings and status, otherwise the
    /// setup's error.
    pub fn enter_ready(self, setup: Result<(), Smt160Error>) -> (r: Result<Smt160Driver<H, Ready, O>, Smt160Error>)
        ensures
            setup matches Err(e) ==> r == Err::<Smt160Driver<H, Ready, O>, Smt160Error>(e),
            setup is Ok ==> r is Ok,
            r matches Ok(d) ==> {
                &&& d.hal == self.hal
                &&& d.observer == self.observer
                &&& d.config == self.config
                &&& d.last_temp is None
                &&& d.last_above_threshold is None
                &&& d.last_period == 0
                &&& d.sample_count == 0
                &&& d.last_update_ms == self.last_update_ms
                &&& d.status.bits == 0
                &&& d.diagnostics == self.diagnostics
                &&& d.calibration == self.calibration
                &&& d.nlc_table == self.nlc_table
                &&& self.wf() ==> d.wf()
            },
    {
        let d = self;
        if let Err(e) = setup {
            return Err(e);
        }
        Ok(Smt160Driver {
            hal: d.hal,
            observer: d.observer,
            state: PhantomData,
            config: d.config,
            last_temp: None,
            last_above_threshold: None,
            last_period: 0,
            sample_count: 0,
            last_update_ms: d.last_update_ms,
            status: Smt160Status::empty(),
            diagnostics: d.diagnostics,
            calibration: d.calibration,
            nlc_table: d.nlc_table,
        })
    }
}

impl<H: Smt160Hal, O: Smt160Observer> Smt160Driver<H, Ready, O> {
    /// Sets up the hardware again and clears the readings, the status and the
    /// watchdog (to `reset_instant_ms`); on a setup error nothing but the
    /// hardware adapter changes. The setup's outcome is recorded and
    /// returned by `apply_setup`.
    pub fn reinit(&mut self, timer_freq: u32, reset_instant_ms: u64) -> (r: Result<(), Smt160Error>)
        ensures
            final(self).observer == old(self).observer,
            final(self).config == old(self).config,
            final(self).diagnostics == old(self).diagnostics,
            final(self).calibration == old(self).calibration,
            final(self).nlc_table == old(self).nlc_table,
            r is Ok ==> {
                &&& final(self).status.bits == 0
                &&& final(self).last_temp is None
                &&& final(self).last_above_threshold is None
                &&& final(self).sample_count == 0
                &&& final(self).last_period == 0
                &&& final(self).last_update_ms == reset_instant_ms
            },
            r is Err ==> {
                &&& final(self).status == old(self).status
                &&& final(self).last_temp == old(self).last_temp
                &&& final(self).last_above_threshold == old(self).last_above_threshold
                &&& final(self).sample_count == old(self).sample_count
                &&& final(self).last_period == old(self).last_period
                &&& final(self).last_update_ms == old(self).last_update_ms
            },
            old(self).wf() ==> final(self).wf(),
    {
        let setup = self.hal.setup(timer_freq);
        self.apply_setup(setup, reset_instant_ms)
    }

    /// Records the outcome `setup` of a hardware re-initialization: on
    /// success the readings, the status and the watchdog (to
    /// `reset_instant_ms`) are cleared; on an error nothing changes. The
    /// outcome is returned.
    pub fn apply_setup(&mut self, setup: Result<(), Smt160Error>, reset_instant_ms: u64) -> (r: Result<(), Smt160Error>)
        ensures
            r == setup,
            setup is Ok ==> *final(self) == (Smt160Driver {
                status: Smt160Status { bits: 0 },
                last_temp: None,
                last_above_threshold: None,
                sample_count: 0,
                last_period: 0,
                last_update_ms: reset_instant_ms,
                ..*old(self)
            }),
            setup is Err ==> *final(self) == *old(self),
    {
        if let Err(e) = setup {
            return Err(e);
        }
        self.status = Smt160Status::empty();
        self.last_temp = None;
        self.last_above_threshold = None;
        self.sample_count = 0;
        self.last_period = 0;
        self.last_update_ms = reset_instant_ms;
        setup
    }

    /// The cycle the hardware adapter delivers when polled: its latest
    /// cycle when it has new data, nothing otherwise.
    pub open spec fn captured_edge(&self) -> Option<CapturedEdge> {
        if self.hal.has_new_data() { Some(self.hal.latest_edge()) } else { None }
    }

    /// Polls the hardware at time `now_ms` and returns the filtered
    /// temperature when a new valid cycle was captured (see `process_poll`),
    /// then notifies the observer.
    pub fn read_temperature(&mut self, now_ms: u64) -> (r: Option<Q32>)
        requires
            old(self).wf(),
        ensures
            final(self).wf(),
            exists|e: Option<CapturedEdge>, n: Notifications| Self::polled(*old(self), *final(self), e, now_ms, r, n),
            H::obeys_hal_spec() ==> exists|n: Notifications| #[trigger] Self::polled(
                *old(self),
                *final(self),
                old(self).captured_edge(),
                now_ms,
                r,
                n,
            ),
    {
        let edge = if self.hal.is_new_data_available() {
            Some(self.hal.read_raw())
        } else {
            None
        };
        let (r, notes) = self.process_poll(edge, now_ms);
        self.notify_observer(&notes);
        r
    }

    /// Records that waiting for data failed: raises the timeout flag and
    /// reports the signal loss when the flag was not already raised.
    pub fn record_wait_failure(&mut self) -> (n: Notifications)
        ensures
            final(self).status.bits == old(self).status.bits | Smt160Status::SENSOR_TIMEOUT,
            n == (Notifications {
                threshold_crossed: None,
                signal_lost: old(self).status.bits & Smt160Status::SENSOR_TIMEOUT != Smt160Status::SENSOR_TIMEOUT,
                hardware_error: false,
            }),
            *final(self) == (Smt160Driver { status: final(self).status, ..*old(self) }),
    {
        let lost = !self.status.contains(Smt160Status::SENSOR_TIMEOUT);
        self.status.insert(Smt160Status::SENSOR_TIMEOUT);
        Notifications { threshold_crossed: None, signal_lost: lost, hardware_error: false }
    }

    /// The current status flags.
    pub fn status(&self) -> (r: Smt160Status)
        ensures
            r == self.status,
    {
        self.status
    }

    /// The hardware adapter, for direct access.
    pub fn hal_mut(&mut self) -> (r: &mut H)
        ensures
            *r == old(self).hal,
            *final(self) == (Smt160Driver { hal: *final(r), ..*old(self) }),
    {
        &mut self.hal
    }
}

/// Setting out-of-bounds after the flag updates of a poll with data leaves
/// the timeout flag clear, and the out-of-bounds flag set when it was set.
pub proof fn lemma_poll_flags(x: u8, j: bool, k: bool)
    ensures
        ({
            let s3 = with_flag(with_flag(x & !4u8, 1u8, j), 16u8, k);
            &&& (s3 & !2u8) & 4u8 == 0
            &&& (s3 | 2u8) & 4u8 == 0
            &&& (s3 | 2u8) & 2u8 == 2u8
        }),
{
    let a = x & !4u8;
    assert(a & 4u8 == 0) by (bit_vector)
        requires a == x & !4u8;
    let b1 = with_flag(a, 1u8, j);
    if j {
        assert((a | 1u8) & 4u8 == 0) by (bit_vector) requires a & 4u8 == 0;
    } else {
        assert((a & !1u8) & 4u8 == 0) by (bit_vector) requires a & 4u8 == 0;
    }
    let b2 = with_flag(b1, 16u8, k);
    if k {
        assert((b1 | 16u8) & 4u8 == 0) by (bit_vector) requires b1 & 4u8 == 0;
    } else {
        assert((b1 & !16u8) & 4u8 == 0) by (bit_vector) requires b1 & 4u8 == 0;
    }
    assert((b2 & !2u8) & 4u8 == 0) by (bit_vector) requires b2 & 4u8 == 0;
    assert((b2 | 2u8) & 4u8 == 0) by (bit_vector) requires b2 & 4u8 == 0;
    assert((b2 | 2u8) & 2u8 == 2u8) by (bit_vector);
}

/// A cycle whose high time exceeds its period is dropped: no reading, the
/// out-of-bounds flag raised, the filter state kept.
pub proof fn lemma_invalid_signal_dropped<H, S, O>(
    old: Smt160Driver<H, S, O>,
    new: Smt160Driver<H, S, O>,
    e: CapturedEdge,
    now: u64,
    r: Option<Q32>,
    n: Notifications,
)
    requires
        Smt160Driver::polled(old, new, Some(e), now, r, n),
        e.high_ticks > e.period_ticks,
    ensures
        r is None,
        new.status.bits & Smt160Status::OUT_OF_BOUNDS == Smt160Status::OUT_OF_BOUNDS,
        new.last_temp == old.last_temp,
        new.sample_count == old.sample_count,
        n.threshold_crossed is None,
{
    lemma_poll_flags(
        old.status.bits,
        jitter_exceeded(new.diagnostics, old.config.jitter_threshold_pct),
        noise_exceeded(new.diagnostics),
    );
}

/// Without data for at least the configured timeout, the timeout flag is
/// raised and no reading is returned; new data clears the flag.
pub proof fn lemma_watchdog<H, S, O>(
    old: Smt160Driver<H, S, O>,
    new: Smt160Driver<H, S, O>,
    edge: Option<CapturedEdge>,
    now: u64,
    r: Option<Q32>,
    n: Notifications,
)
    requires
        Smt160Driver::polled(old, new, edge, now, r, n),
    ensures
        edge is None ==> r is None,
        edge is None && elapsed_ms(old.last_update_ms, now) >= old.config.timeout_ms
            ==> new.status.bits & Smt160Status::SENSOR_TIMEOUT == Smt160Status::SENSOR_TIMEOUT,
        edge is Some ==> new.status.bits & Smt160Status::SENSOR_TIMEOUT == 0,
        edge is Some ==> new.last_update_ms == now,
{
    let x = old.status.bits;
    assert((x | 4u8) & 4u8 == 4u8) by (bit_vector);
    lemma_poll_flags(
        x,
        jitter_exceeded(new.diagnostics, old.config.jitter_threshold_pct),
        noise_exceeded(new.diagnostics),
    );
}

/// A reading is only returned when correction and calibration succeed; the
/// first reading (no previous output) is the calibrated, corrected
/// temperature itself; later readings lie between the previous output and
/// the new calibrated value (up to one unit of rounding below).
pub proof fn lemma_reading_is_filtered<H, S, O>(
    old: Smt160Driver<H, S, O>,
    new: Smt160Driver<H, S, O>,
    e: CapturedEdge,
    now: u64,
    t: Q32,
    n: Notifications,
    raw: Q32,
)
    requires
        old.wf(),
        Smt160Driver::polled(old, new, Some(e), now, Some(t), n),
        spec_decode(e.period_ticks, e.high_ticks) == Ok::<Q32, Smt160Error>(raw),
    ensures
        calibrated_value(raw.bits as int, old.nlc_table, old.calibration) is Some,
        ({
            let c = calibrated_value(raw.bits as int, old.nlc_table, old.calibration)->0;
            &&& old.last_temp is None ==> t.bits == c
            &&& old.last_temp matches Some(l) ==> min_int(c, l.bits as int) - 1 <= t.bits <= max_int(c, l.bits as int)
        }),
{
    let cv = calibrated_value(raw.bits as int, old.nlc_table, old.calibration);
    if let Some(c) = cv {
        if let Some(l) = old.last_temp {
            crate::math::lemma_ewma_fits(filter_alpha(c, l.bits as int, old.sample_count), c, l.bits as int);
        }
    }
}

/// Threshold notifications: with a threshold `th`, a reading `t` records
/// whether it is above `th`, and the observer is notified (with `t`)
/// exactly on a crossing of the configured kind: a rising crossing (below,
/// then above) for `Rising`, a falling crossing (above, then not above) for
/// `Falling`, either for `Both`; the first reading never notifies. Without
/// a threshold every reading is notified.
pub proof fn lemma_threshold_notification<H, S, O>(
    old: Smt160Driver<H, S, O>,
    new: Smt160Driver<H, S, O>,
    e: CapturedEdge,
    now: u64,
    t: Q32,
    n: Notifications,
)
    requires
        Smt160Driver::polled(old, new, Some(e), now, Some(t), n),
    ensures
        n.threshold_crossed is Some ==> n.threshold_crossed == Some(t),
        old.config.threshold is None ==> n.threshold_crossed == Some(t),
        old.config.threshold matches Some(th) ==> {
            let above = t.bits > th.bits;
            &&& new.last_above_threshold == Some(above)
            &&& old.last_above_threshold is None ==> n.threshold_crossed is None
            &&& old.last_above_threshold matches Some(was) ==> (n.threshold_crossed is Some <==> match old.config.trigger_edge {
                TriggerEdge::Rising => !was && above,
                TriggerEdge::Falling => was && !above,
                TriggerEdge::Both => was != above,
            })
        },
{
    let raw = spec_decode(e.period_ticks, e.high_ticks)->Ok_0;
    let cv = calibrated_value(raw.bits as int, old.nlc_table, old.calibration);
    if let Some(c) = cv {
        if let Some(l) = old.last_temp {
            crate::math::lemma_ewma_fits(filter_alpha(c, l.bits as int, old.sample_count), c, l.bits as int);
        }
    }
}

/// A poll with a captured cycle that decodes, and whose correction and
/// calibration are representable, returns a reading, records the captured
/// period as it was read (all 64 bits) and clears the out-of-bounds flag.
pub proof fn lemma_valid_cycle_gives_reading<H, S, O>(
    old: Smt160Driver<H, S, O>,
    new: Smt160Driver<H, S, O>,
    e: CapturedEdge,
    now: u64,
    r: Option<Q32>,
    n: Notifications,
)
    requires
        Smt160Driver::polled(old, new, Some(e), now, r, n),
        spec_decode(e.period_ticks, e.high_ticks) is Ok,
        calibrated_value(spec_decode(e.period_ticks, e.high_ticks)->Ok_0.bits as int, old.nlc_table, old.calibration) is Some,
    ensures
        r is Some,
        new.last_period == e.period_ticks,
        new.status.bits & Smt160Status::OUT_OF_BOUNDS == 0,
        new.sample_count == if old.sample_count == u32::MAX { u32::MAX } else { (old.sample_count + 1) as u32 },
{
    let s3 = with_flag(
        with_flag(old.status.bits & !Smt160Status::SENSOR_TIMEOUT, Smt160Status::JITTER_DETECTED, jitter_exceeded(new.diagnostics, old.config.jitter_threshold_pct)),
        Smt160Status::SIGNAL_NOISY,
        noise_exceeded(new.diagnostics),
    );
    assert((s3 & !2u8) & 2u8 == 0) by (bit_vector);
}

} // verus!
