//! Edge-driven state machine turning PWM edge timestamps into filtered
//! temperature readings.

use vstd::prelude::*;
use crate::error::Smt160Error;
use crate::fixed_point::{Q16, Q32, q16_one, q32_one, div_bits, fits_i64, trunc_div};
use crate::status::Smt160Status;
use crate::types::Reading;
use crate::config::{DUTY_CYCLE_OFFSET_BITS, INVERSE_STEP_CONSTANT_BITS};
use crate::conversion::unpack_dma_capture;
use crate::math::{
    calculate_duty_cycle, calculate_temperature_celsius, apply_linearity_correction,
    apply_shift_ema_filter, spec_calculate_duty_cycle, spec_temperature_celsius, spec_nlc,
    spec_default_nlc_table, spec_shift_ema, MIN_CORRECTED_Q16_BITS, MAX_CORRECTED_Q16_BITS,
};

verus! {

/// Smoothing shift of the decoder's moving average (alpha = 1/128).
pub const EMA_SHIFT: u32 = 7;

/// `a - b` modulo 2^64.
pub open spec fn wrap_sub(a: u64, b: u64) -> u64 {
    if a >= b { (a - b) as u64 } else { (a - b + 0x1_0000_0000_0000_0000) as u64 }
}

/// The abstract state of a decoder.
pub struct DecoderState {
    pub last_rise: Option<u64>,
    pub last_fall: Option<u64>,
    pub ema: Option<Q16>,
    pub samples: u32,
    pub last_edge: Option<u64>,
    pub clock_mhz: u32,
    pub buffer_index: usize,
    pub buffer_full: bool,
}

/// The corrected temperature of a cycle before filtering, raw `Q16` bits,
/// or the error that rejects the cycle.
pub open spec fn spec_cycle_temperature(period: u64, active: u64, offset: Q32, inverse_step: Q32) -> Result<int, Smt160Error> {
    match spec_calculate_duty_cycle(active, period) {
        Err(e) => Err(e),
        Ok(dc) => match spec_temperature_celsius(dc.bits as int, offset.bits as int, inverse_step.bits as int) {
            Err(e) => Err(e),
            Ok(t) => Ok(spec_nlc(t.bits as int, spec_default_nlc_table()) / q16_one()),
        },
    }
}

/// The moving average after a corrected temperature `c`.
pub open spec fn next_ema(ema: Option<Q16>, c: int) -> int {
    match ema {
        Some(prev) => spec_shift_ema(prev.bits as int, c, EMA_SHIFT),
        None => c,
    }
}

/// `x + 1`, saturating at `u32::MAX`.
pub open spec fn saturating_inc(x: u32) -> u32 {
    if x == u32::MAX { x } else { (x + 1) as u32 }
}

/// Decoder state and result after processing one cycle.
pub open spec fn spec_process(s: DecoderState, period: u64, active: u64, offset: Q32, inverse_step: Q32) -> (DecoderState, Result<Reading, Smt160Error>) {
    match spec_cycle_temperature(period, active, offset, inverse_step) {
        Err(e) => (s, Err(e)),
        Ok(c) => {
            let avg = Q16 { bits: next_ema(s.ema, c) as i32 };
            (
                DecoderState { ema: Some(avg), samples: saturating_inc(s.samples), ..s },
                Ok(Reading { temperature_celsius: avg, status: Smt160Status { bits: 0 } }),
            )
        },
    }
}

/// Decoder state and result after an edge at `t`.
pub open spec fn spec_push_edge(s: DecoderState, rising: bool, t: u64, offset: Q32, inverse_step: Q32) -> (DecoderState, Result<Option<Reading>, Smt160Error>) {
    let s1 = DecoderState { last_edge: Some(t), ..s };
    if rising {
        match (s.last_rise, s.last_fall) {
            (Some(r), Some(f)) => {
                let s2 = DecoderState { last_rise: Some(t), ..s1 };
                let (s3, res) = spec_process(s2, wrap_sub(t, r), wrap_sub(f, r), offset, inverse_step);
                (s3, match res { Ok(reading) => Ok(Some(reading)), Err(e) => Err(e) })
            },
            _ => (DecoderState { last_rise: Some(t), ..s1 }, Ok(None)),
        }
    } else if s.last_rise is Some {
        (DecoderState { last_fall: Some(t), ..s1 }, Ok(None))
    } else {
        (s1, Ok(None))
    }
}

/// Decoder state and latest reading after a batch of capture words; a word
/// with a zero period is skipped, an error stops the batch.
pub open spec fn spec_batch(s: DecoderState, words: Seq<u32>, offset: Q32, inverse_step: Q32, latest: Option<Reading>) -> (DecoderState, Result<Option<Reading>, Smt160Error>)
    decreases words.len(),
{
    if words.len() == 0 {
        (s, Ok(latest))
    } else {
        let w = words[0];
        let period = (w / 0x1_0000) as u64;
        let active = (w % 0x1_0000) as u64;
        if period > 0 {
            let (s1, r) = spec_process(s, period, active, offset, inverse_step);
            match r {
                Err(e) => (s1, Err(e)),
                Ok(reading) => spec_batch(s1, words.drop_first(), offset, inverse_step, Some(reading)),
            }
        } else {
            spec_batch(s, words.drop_first(), offset, inverse_step, latest)
        }
    }
}

/// Sum of the first `n` buffered temperatures, as raw `Q32` bits.
pub open spec fn buffer_sum(b: Seq<Q16>, n: int) -> int
    decreases n,
{
    if n <= 0 { 0 } else { buffer_sum(b, n - 1) + b[n - 1].bits * q16_one() }
}

/// The average of the first `n` buffered temperatures, raw `Q16` bits.
pub open spec fn spec_buffer_average(b: Seq<Q16>, n: int) -> int {
    if n == 0 {
        0
    } else {
        div_bits(buffer_sum(b, n), n * q32_one()) / q16_one()
    }
}

/// A state machine decoding SMT160 pulse trains from edge timestamps, with
/// all arithmetic in fixed point.
pub struct Smt160Decoder {
    last_rising_edge_ticks: Option<u64>,
    last_falling_edge_ticks: Option<u64>,
    circular_buffer: [Q16; 16],
    buffer_index: usize,
    is_buffer_full: bool,
    timer_clock_megahertz: u32,
    exponential_moving_average: Option<Q16>,
    total_processed_samples: u32,
    last_captured_edge_time: Option<u64>,
}

impl View for Smt160Decoder {
    type V = DecoderState;

    closed spec fn view(&self) -> DecoderState {
        DecoderState {
            last_rise: self.last_rising_edge_ticks,
            last_fall: self.last_falling_edge_ticks,
            ema: self.exponential_moving_average,
            samples: self.total_processed_samples,
            last_edge: self.last_captured_edge_time,
            clock_mhz: self.timer_clock_megahertz,
            buffer_index: self.buffer_index,
            buffer_full: self.is_buffer_full,
        }
    }
}

impl Smt160Decoder {
    /// The moving average always lies within the range of corrected
    /// temperatures (-55 °C ..= 155 °C).
    #[verifier::type_invariant]
    closed spec fn inv(self) -> bool {
        &&& self.exponential_moving_average matches Some(e) ==> MIN_CORRECTED_Q16_BITS <= e.bits <= MAX_CORRECTED_Q16_BITS
        &&& self.buffer_index <= 16
    }

    /// The state of a fresh decoder with a 1 MHz timer clock.
    pub open spec fn initial_state(clock_mhz: u32) -> DecoderState {
        DecoderState {
            last_rise: None,
            last_fall: None,
            ema: None,
            samples: 0,
            last_edge: None,
            clock_mhz,
            buffer_index: 0,
            buffer_full: false,
        }
    }

    /// A decoder for a 1 MHz (microsecond) timer clock.
    pub fn new() -> (r: Smt160Decoder)
        ensures
            r@ == Self::initial_state(1),
    {
        Smt160Decoder {
            last_rising_edge_ticks: None,
            last_falling_edge_ticks: None,
            circular_buffer: [Q16 { bits: 0 }; 16],
            buffer_index: 0,
            is_buffer_full: false,
            timer_clock_megahertz: 1,
            exponential_moving_average: None,
            total_processed_samples: 0,
            last_captured_edge_time: None,
        }
    }

    /// A decoder for a timer clock of `timer_clock_megahertz` MHz (1 MHz when 0).
    pub fn new_standalone(timer_clock_megahertz: u32) -> (r: Smt160Decoder)
        ensures
            r@ == Self::initial_state(if timer_clock_megahertz > 0 { timer_clock_megahertz } else { 1 }),
    {
        let mut decoder = Self::new();
        proof {
            use_type_invariant(&decoder);
        }
        decoder.timer_clock_megahertz = if timer_clock_megahertz > 0 { timer_clock_megahertz } else { 1 };
        decoder
    }

    /// The timer clock the decoder's timestamps are counted in, in MHz.
    pub fn clock_mhz(&self) -> (r: u32)
        ensures
            r == self@.clock_mhz,
    {
        self.timer_clock_megahertz
    }

    /// Clears the edge tracking and the filter; the clock setting is kept.
    pub fn reset_state(&mut self)
        ensures
            final(self)@ == Self::initial_state(old(self)@.clock_mhz),
    {
        proof {
            use_type_invariant(&*self);
        }
        self.last_rising_edge_ticks = None;
        self.last_falling_edge_ticks = None;
        self.buffer_index = 0;
        self.is_buffer_full = false;
        self.exponential_moving_average = None;
        self.total_processed_samples = 0;
        self.last_captured_edge_time = None;
    }

    /// Processes one cycle of `period_ticks` with `active_ticks` high time:
    /// duty cycle, transfer function with the given constants, default
    /// non-linearity correction, then the moving average. On error the
    /// state is unchanged.
    pub fn process_raw_ticks(
        &mut self,
        period_ticks: u64,
        active_ticks: u64,
        duty_cycle_offset: Q32,
        inverse_step_constant: Q32,
    ) -> (r: Result<Reading, Smt160Error>)
        ensures
            (final(self)@, r) == spec_process(old(self)@, period_ticks, active_ticks, duty_cycle_offset, inverse_step_constant),
    {
        proof {
            use_type_invariant(&*self);
        }
        let current_duty_cycle = calculate_duty_cycle(active_ticks, period_ticks)?;
        let calculated = calculate_temperature_celsius(current_duty_cycle, duty_cycle_offset, inverse_step_constant)?;
        let corrected = apply_linearity_correction(calculated);
        let updated_average = match self.exponential_moving_average {
            Some(prev) => apply_shift_ema_filter(prev, corrected, EMA_SHIFT),
            None => corrected,
        };
        self.exponential_moving_average = Some(updated_average);
        self.total_processed_samples = self.total_processed_samples.saturating_add(1);
        Ok(Reading { temperature_celsius: updated_average, status: Smt160Status::empty() })
    }

    /// Pushes an edge using the standard SMT160 transfer-function constants.
    pub fn push_edge(&mut self, is_rising_edge: bool, capture_timestamp_ticks: u64) -> (r: Result<Option<Reading>, Smt160Error>)
        ensures
            (final(self)@, r) == spec_push_edge(
                old(self)@,
                is_rising_edge,
                capture_timestamp_ticks,
                Q32 { bits: DUTY_CYCLE_OFFSET_BITS },
                Q32 { bits: INVERSE_STEP_CONSTANT_BITS },
            ),
    {
        self.push_edge_timestamp(
            is_rising_edge,
            capture_timestamp_ticks,
            Q32::from_bits(DUTY_CYCLE_OFFSET_BITS),
            Q32::from_bits(INVERSE_STEP_CONSTANT_BITS),
        )
    }

    /// Pushes an edge at `capture_timestamp_ticks`. A rising edge after a
    /// rising and a falling edge completes a cycle (period from the previous
    /// rising edge, high time up to the falling edge, both modulo 2^64) and
    /// returns its reading; other edges only update the edge tracking.
    pub fn push_edge_timestamp(
        &mut self,
        is_rising_edge: bool,
        capture_timestamp_ticks: u64,
        duty_cycle_offset: Q32,
        inverse_step_constant: Q32,
    ) -> (r: Result<Option<Reading>, Smt160Error>)
        ensures
            (final(self)@, r) == spec_push_edge(old(self)@, is_rising_edge, capture_timestamp_ticks, duty_cycle_offset, inverse_step_constant),
    {
        proof {
            use_type_invariant(&*self);
        }
        self.last_captured_edge_time = Some(capture_timestamp_ticks);
        if is_rising_edge {
            match (self.last_rising_edge_ticks, self.last_falling_edge_ticks) {
                (Some(prev_rise), Some(prev_fall)) => {
                    let active_ticks = prev_fall.wrapping_sub(prev_rise);
                    let period_ticks = capture_timestamp_ticks.wrapping_sub(prev_rise);
                    self.last_rising_edge_ticks = Some(capture_timestamp_ticks);
                    let reading = self.process_raw_ticks(period_ticks, active_ticks, duty_cycle_offset, inverse_step_constant)?;
                    Ok(Some(reading))
                },
                _ => {
                    self.last_rising_edge_ticks = Some(capture_timestamp_ticks);
                    Ok(None)
                },
            }
        } else {
            if self.last_rising_edge_ticks.is_some() {
                self.last_falling_edge_ticks = Some(capture_timestamp_ticks);
            }
            Ok(None)
        }
    }

    /// Decodes a batch of capture words `(period << 16) | active`, skipping
    /// words with a zero period, and returns the latest reading; the first
    /// error stops the batch.
    pub fn process_batch(
        &mut self,
        dma_capture_data: &[u32],
        duty_cycle_offset: Q32,
        inverse_step_constant: Q32,
    ) -> (r: Result<Option<Reading>, Smt160Error>)
        ensures
            (final(self)@, r) == spec_batch(old(self)@, dma_capture_data@, duty_cycle_offset, inverse_step_constant, None),
    {
        let ghost words = dma_capture_data@;
        let mut latest_reading: Option<Reading> = None;
        let mut i: usize = 0;
        assert(words.skip(0) =~= words);
        while i < dma_capture_data.len()
            invariant
                words == dma_capture_data@,
                0 <= i <= words.len(),
                spec_batch(old(self)@, words, duty_cycle_offset, inverse_step_constant, None)
                    == spec_batch(self@, words.skip(i as int), duty_cycle_offset, inverse_step_constant, latest_reading),
            decreases words.len() - i,
        {
            let (period_ticks, active_ticks) = unpack_dma_capture(dma_capture_data[i]);
            assert(words.skip(i as int).drop_first() =~= words.skip(i + 1));
            if period_ticks > 0 {
                let reading = self.process_raw_ticks(period_ticks, active_ticks, duty_cycle_offset, inverse_step_constant)?;
                latest_reading = Some(reading);
            }
            i += 1;
        }
        assert(words.skip(words.len() as int) =~= Seq::<u32>::empty());
        Ok(latest_reading)
    }

    /// The average of the buffered temperatures (0 when the buffer is empty).
    fn calculate_buffer_average(&self) -> (r: Q16)
        ensures
            r.bits == spec_buffer_average(
                self.circular_buffer@,
                if self.is_buffer_full { 16 } else { self.buffer_index as int },
            ),
    {
        proof {
            use_type_invariant(self);
        }
        let sample_count: usize = if self.is_buffer_full { 16 } else { self.buffer_index };
        if sample_count == 0 {
            return Q16::from_bits(0);
        }
        let mut total = Q32::from_int(0);
        let mut i: usize = 0;
        while i < sample_count
            invariant
                sample_count <= 16,
                i <= sample_count,
                total.bits == buffer_sum(self.circular_buffer@, i as int),
                -(i * 0x8000_0000_0000) <= total.bits <= i * 0x7fff_ffff_0000,
            decreases sample_count - i,
        {
            let v = self.circular_buffer[i].to_q32();
            total = total.add(v);
            i += 1;
        }
        let n = Q32::from_u32(sample_count as u32);
        let ghost t = total.bits as int;
        let ghost k = n.bits as int;
        proof {
            let a = if t < 0 { -t } else { t };
            assert(k >= q32_one());
            let q = (a * q32_one()) / k;
            vstd::arithmetic::div_mod::lemma_fundamental_div_mod(a * q32_one(), k);
            vstd::arithmetic::div_mod::lemma_mod_pos_bound(a * q32_one(), k);
            assert(q * k <= a * q32_one()) by (nonlinear_arith)
                requires
                    a * q32_one() == k * q + (a * q32_one()) % k,
                    (a * q32_one()) % k >= 0,
            ;
            let nn = sample_count as int;
            assert(k == nn * q32_one());
            assert(q * nn <= a) by (nonlinear_arith)
                requires q * k <= a * q32_one(), k == nn * q32_one(), q32_one() > 0;
            if t >= 0 {
                assert(q <= 0x7fff_ffff_0000) by (nonlinear_arith)
                    requires q * nn <= a, a <= nn * 0x7fff_ffff_0000, nn >= 1;
            } else {
                assert(q <= 0x8000_0000_0000) by (nonlinear_arith)
                    requires q * nn <= a, a <= nn * 0x8000_0000_0000, nn >= 1;
            }
            assert(div_bits(t, k) == trunc_div(t * q32_one(), k));
            if t < 0 {
                assert(-(t * q32_one()) == a * q32_one());
            }
        }
        match total.checked_div(n) {
            Some(avg) => avg.to_q16(),
            None => Q16::from_bits(0),
        }
    }
}

impl Default for Smt160Decoder {
    /// A decoder for a 1 MHz (microsecond) timer clock.
    fn default() -> (r: Smt160Decoder)
        ensures
            r@ == Smt160Decoder::initial_state(1),
    {
        Smt160Decoder::new()
    }
}

/// A rising edge at `t1`, a falling edge at `t2` and a rising edge at `t3`,
/// fed to a decoder that has seen no rising edge yet, complete one cycle of
/// period `t3 - t1` and high time `t2 - t1` (modulo 2^64): the third edge
/// returns that cycle's reading.
pub proof fn lemma_full_cycle(s: DecoderState, t1: u64, t2: u64, t3: u64, offset: Q32, inverse_step: Q32)
    requires
        s.last_rise is None,
    ensures
        ({
            let a = spec_push_edge(s, true, t1, offset, inverse_step);
            let b = spec_push_edge(a.0, false, t2, offset, inverse_step);
            let c = spec_push_edge(b.0, true, t3, offset, inverse_step);
            let p = spec_process(DecoderState { last_rise: Some(t3), last_fall: Some(t2), last_edge: Some(t3), ..s }, wrap_sub(t3, t1), wrap_sub(t2, t1), offset, inverse_step);
            &&& a.1 == Ok::<Option<Reading>, Smt160Error>(None)
            &&& b.1 == Ok::<Option<Reading>, Smt160Error>(None)
            &&& c.0 == p.0
            &&& c.1 == (match p.1 { Ok(r) => Ok(Some(r)), Err(e) => Err(e) })
        }),
{
}

/// Once a rising edge has been seen, every falling edge at `f` followed by
/// a rising edge at `t` completes a cycle measured from the previous rising
/// edge: decoding continues cycle after cycle without a restart.
pub proof fn lemma_next_cycle(s: DecoderState, f: u64, t: u64, offset: Q32, inverse_step: Q32)
    requires
        s.last_rise is Some,
    ensures
        ({
            let r = s.last_rise->0;
            let b = spec_push_edge(s, false, f, offset, inverse_step);
            let c = spec_push_edge(b.0, true, t, offset, inverse_step);
            let p = spec_process(DecoderState { last_rise: Some(t), last_fall: Some(f), last_edge: Some(t), ..s }, wrap_sub(t, r), wrap_sub(f, r), offset, inverse_step);
            &&& b.1 == Ok::<Option<Reading>, Smt160Error>(None)
            &&& c.0 == p.0
            &&& c.1 == (match p.1 { Ok(reading) => Ok(Some(reading)), Err(e) => Err(e) })
        }),
{
}

/// A falling edge before any rising edge only records the edge time.
pub proof fn lemma_fall_without_rise_ignored(s: DecoderState, t: u64, offset: Q32, inverse_step: Q32)
    requires
        s.last_rise is None,
    ensures
        spec_push_edge(s, false, t, offset, inverse_step) == (DecoderState { last_edge: Some(t), ..s }, Ok::<Option<Reading>, Smt160Error>(None)),
{
}

/// A rejected cycle leaves the decoder's filter and counters unchanged.
pub proof fn lemma_rejected_cycle_keeps_state(s: DecoderState, period: u64, active: u64, offset: Q32, inverse_step: Q32)
    requires
        spec_process(s, period, active, offset, inverse_step).1 is Err,
    ensures
        spec_process(s, period, active, offset, inverse_step).0 == s,
{
}

} // verus!
