//! Fixed-point signal processing: decoding, non-linearity correction and
//! adaptive filtering of SMT160 temperature readings.

use vstd::prelude::*;
use crate::error::Smt160Error;
use vstd::arithmetic::power2::{pow2, lemma_pow2_pos};
use crate::fixed_point::{Q32, Q16, q32_one, abs_int, min_int, max_int, q16_one, fits_i32, fits_i64, mul_bits, div_bits, trunc_div};

verus! {

/// Duty-cycle offset of the SMT160 transfer function (0.320), as raw bits.
pub const DC_OFFSET_BITS: i64 = 1374389535;
/// Inverse of the transfer function's step (1 / 0.00470 = 212.7659574...), rounded to the nearest raw bits.
pub const INVERSE_STEP_BITS: i64 = 913822828936;
/// Lowest temperature accepted by `decode` (-45 °C), as raw bits.
pub const MIN_TEMP_BITS: i64 = -193273528320;
/// Highest temperature accepted by `decode` (130 °C), as raw bits.
pub const MAX_TEMP_BITS: i64 = 558345748480;

/// The duty cycle `active / period` as raw `Q32` bits (rounded down).
pub open spec fn spec_duty_cycle(period: int, active: int) -> int {
    (active * q32_one()) / period
}

/// The temperature for a duty cycle: `(dc - 0.320) * 212.766`, as raw bits.
pub open spec fn spec_raw_temperature(dc: int) -> int {
    mul_bits(dc - DC_OFFSET_BITS, INVERSE_STEP_BITS as int)
}

/// Lowest duty cycle of a sound signal, in thousandths (0.320): below it
/// the signal points to a wiring fault or a degraded sensor.
pub const MIN_DUTY_PERMILLE: u64 = 320;

/// The duty cycle `active / period` is below 0.320 (compared exactly).
pub open spec fn below_min_duty(period: u64, active: u64) -> bool {
    active * 1000 < period * MIN_DUTY_PERMILLE
}

/// What `SignalDecoder::decode` returns for a period and an active time.
pub open spec fn spec_decode(period: u64, active: u64) -> Result<Q32, Smt160Error> {
    if period == 0 {
        Err(Smt160Error::SensorTimeout)
    } else if active > period {
        Err(Smt160Error::InvalidSignal)
    } else if below_min_duty(period, active) {
        Err(Smt160Error::OutOfBounds)
    } else {
        let t = spec_raw_temperature(spec_duty_cycle(period as int, active as int));
        if t < MIN_TEMP_BITS || t > MAX_TEMP_BITS {
            Err(Smt160Error::OutOfBounds)
        } else {
            Ok(Q32 { bits: t as i64 })
        }
    }
}


/// Abscissa of entry `i` of a correction table, as raw bits.
pub open spec fn tx(t: Seq<(Q32, Q32)>, i: int) -> int {
    t[i].0.bits as int
}

/// Ordinate of entry `i` of a correction table, as raw bits.
pub open spec fn ty(t: Seq<(Q32, Q32)>, i: int) -> int {
    t[i].1.bits as int
}

/// Linear interpolation `y0 + (raw - x0) * (y1 - y0) / (x1 - x0)` with the
/// rounding of the fixed-point operations, as raw bits.
pub open spec fn interp_bits(raw: int, x0: int, y0: int, x1: int, y1: int) -> int {
    y0 + div_bits(mul_bits(raw - x0, y1 - y0), x1 - x0)
}

/// Every intermediate value of `interp_bits` is representable.
pub open spec fn interp_fits(raw: int, x0: int, y0: int, x1: int, y1: int) -> bool {
    &&& fits_i64(x1 - x0)
    &&& fits_i64(y1 - y0)
    &&& fits_i64(raw - x0)
    &&& fits_i64(mul_bits(raw - x0, y1 - y0))
    &&& x1 - x0 != 0 ==> fits_i64(div_bits(mul_bits(raw - x0, y1 - y0), x1 - x0))
    &&& x1 - x0 != 0 ==> fits_i64(interp_bits(raw, x0, y0, x1, y1))
}

/// The first segment `[x_i, x_{i+1}]`, from index `i` on, that contains `raw`,
/// or -1 when there is none.
pub open spec fn nlc_segment(raw: int, t: Seq<(Q32, Q32)>, i: int) -> int
    decreases t.len() - i,
{
    if i < 0 || i + 1 >= t.len() {
        -1
    } else if tx(t, i) <= raw <= tx(t, i + 1) {
        i
    } else {
        nlc_segment(raw, t, i + 1)
    }
}

/// Piecewise-linear correction of `raw` by a table of `(input, output)`
/// points: the first and last outputs below and above the table, linear
/// interpolation on the first segment that contains `raw`, `raw` itself for
/// an empty table.
pub open spec fn spec_nlc(raw: int, t: Seq<(Q32, Q32)>) -> int {
    if t.len() == 0 {
        raw
    } else if raw <= tx(t, 0) {
        ty(t, 0)
    } else if raw >= tx(t, t.len() - 1) {
        ty(t, t.len() - 1)
    } else {
        let i = nlc_segment(raw, t, 0);
        if i < 0 {
            raw
        } else {
            interp_bits(raw, tx(t, i), ty(t, i), tx(t, i + 1), ty(t, i + 1))
        }
    }
}

/// The correction of `raw` by table `t` involves no overflow.
pub open spec fn nlc_fits(raw: int, t: Seq<(Q32, Q32)>) -> bool {
    let i = nlc_segment(raw, t, 0);
    t.len() == 0 || raw <= tx(t, 0) || raw >= tx(t, t.len() - 1) || i < 0
        || interp_fits(raw, tx(t, i), ty(t, i), tx(t, i + 1), ty(t, i + 1))
}

/// The default correction table of standard SMT160 sensors:
/// -30.0 -> -30.3, 0 -> 0, 25 -> 25, 80 -> 79.4, 120 -> 119.0.
pub open spec fn spec_default_nlc_table() -> Seq<(Q32, Q32)> {
    seq![
        (Q32 { bits: -128849018880i64 }, Q32 { bits: -130137505792i64 }),
        (Q32 { bits: 0 }, Q32 { bits: 0 }),
        (Q32 { bits: 107374182400 }, Q32 { bits: 107374182400 }),
        (Q32 { bits: 343597383680 }, Q32 { bits: 341020410060 }),
        (Q32 { bits: 515396075520 }, Q32 { bits: 511099977728 }),
    ]
}

/// Searching from a point below `raw`, with `raw` below the last point,
/// finds a segment `x_k < raw <= x_{k+1}`.
pub proof fn lemma_nlc_segment_found(raw: int, t: Seq<(Q32, Q32)>, j: int)
    requires
        0 <= j < t.len(),
        tx(t, j) < raw,
        raw < tx(t, t.len() - 1),
    ensures
        j <= nlc_segment(raw, t, j) < t.len() - 1,
        tx(t, nlc_segment(raw, t, j)) < raw <= tx(t, nlc_segment(raw, t, j) + 1),
    decreases t.len() - j,
{
    if j + 1 < t.len() && !(tx(t, j) <= raw <= tx(t, j + 1)) {
        lemma_nlc_segment_found(raw, t, j + 1);
    }
}


/// Smoothing factor of the fast-tracking filter (0.8), as raw bits.
pub const ALPHA_FAST_BITS: i64 = 3435973837;
/// Smoothing factor of the steady-state filter (0.1), as raw bits.
pub const ALPHA_SLOW_BITS: i64 = 429496730;
/// Deviation above which the filter tracks fast (5 °C), as raw bits.
pub const FAST_TRACK_DEVIATION_BITS: i64 = 21474836480;
/// Number of initial samples during which the filter tracks fast.
pub const FAST_TRACK_SAMPLES: u32 = 16;

/// The smoothing factor chosen for a new reading `c` after the output `l`
/// at sample number `count`.
pub open spec fn filter_alpha(c: int, l: int, count: u32) -> int {
    if abs_int(c - l) > FAST_TRACK_DEVIATION_BITS || count < FAST_TRACK_SAMPLES {
        ALPHA_FAST_BITS as int
    } else {
        ALPHA_SLOW_BITS as int
    }
}

/// The weighted average `a * c + (1 - a) * l` with the rounding of the
/// fixed-point operations, as raw bits.
pub open spec fn ewma_bits(a: int, c: int, l: int) -> int {
    mul_bits(a, c) + mul_bits(q32_one() - a, l)
}

/// What `SignalDecoder::apply_adaptive_filter` returns.
pub open spec fn spec_adaptive_filter(c: int, last: Option<Q32>, count: u32) -> int {
    match last {
        None => c,
        Some(l) => ewma_bits(filter_alpha(c, l.bits as int, count), c, l.bits as int),
    }
}

/// A weighted average of two values lies between them, up to one unit of
/// rounding below.
pub proof fn lemma_ewma_between(a: int, c: int, l: int)
    requires
        0 <= a <= q32_one(),
    ensures
        min_int(c, l) - 1 <= ewma_bits(a, c, l) <= max_int(c, l),
{
    let k = q32_one();
    let w = a * c + (k - a) * l;
    let f1 = (a * c) / k;
    let f2 = ((k - a) * l) / k;
    assert(f1 * k <= a * c < f1 * k + k);
    assert(f2 * k <= (k - a) * l < f2 * k + k);
    assert(k * min_int(c, l) <= w <= k * max_int(c, l)) by (nonlinear_arith)
        requires
            0 <= a <= k,
            w == a * c + (k - a) * l,
    ;
    assert((f1 + f2) * k <= w);
    assert(f1 + f2 <= max_int(c, l)) by (nonlinear_arith)
        requires
            (f1 + f2) * k <= w,
            w <= k * max_int(c, l),
            k > 0,
    ;
    assert(f1 + f2 >= min_int(c, l) - 1) by (nonlinear_arith)
        requires
            (f1 + f2) * k + 2 * k > w,
            w >= k * min_int(c, l),
            k > 0,
    ;
}

/// What `calculate_temperature_celsius` returns: the transfer function with
/// the given constants, rejected when not representable or outside
/// -45 °C ..= 130 °C.
pub open spec fn spec_temperature_celsius(dc: int, offset: int, inverse_step: int) -> Result<Q32, Smt160Error> {
    let d = dc - offset;
    if !fits_i64(d) || !fits_i64(mul_bits(d, inverse_step)) {
        Err(Smt160Error::OutOfBounds)
    } else {
        let t = mul_bits(d, inverse_step);
        if t < MIN_TEMP_BITS || t > MAX_TEMP_BITS {
            Err(Smt160Error::OutOfBounds)
        } else {
            Ok(Q32 { bits: t as i64 })
        }
    }
}

/// What `calculate_duty_cycle` returns.
pub open spec fn spec_calculate_duty_cycle(active: u64, period: u64) -> Result<Q32, Smt160Error> {
    if period == 0 {
        Err(Smt160Error::SensorTimeout)
    } else if active > period {
        Err(Smt160Error::InvalidSignal)
    } else {
        Ok(Q32 { bits: spec_duty_cycle(period as int, active as int) as i64 })
    }
}

/// The duty cycle `active / period`, rejecting a zero period and an active
/// time longer than the period.
pub fn calculate_duty_cycle(active_ticks: u64, period_ticks: u64) -> (r: Result<Q32, Smt160Error>)
    ensures
        r == spec_calculate_duty_cycle(active_ticks, period_ticks),
        r matches Ok(dc) ==> 0 <= dc.bits <= q32_one(),
{
    if period_ticks == 0 {
        return Err(Smt160Error::SensorTimeout);
    }
    if active_ticks > period_ticks {
        return Err(Smt160Error::InvalidSignal);
    }
    Ok(Q32::ratio(active_ticks, period_ticks))
}

/// The temperature `(dc - offset) * inverse_step` for a duty cycle and the
/// constants of a transfer function; `OutOfBounds` when the result is not
/// representable or outside -45 °C ..= 130 °C.
pub fn calculate_temperature_celsius(duty_cycle: Q32, offset: Q32, inverse_step: Q32) -> (r: Result<Q32, Smt160Error>)
    ensures
        r == spec_temperature_celsius(duty_cycle.bits as int, offset.bits as int, inverse_step.bits as int),
        r matches Ok(t) ==> MIN_TEMP_BITS <= t.bits <= MAX_TEMP_BITS,
        r matches Ok(t) ==> t.bits == ((duty_cycle.bits - offset.bits) * inverse_step.bits) / 0x1_0000_0000,
{
    let d = match duty_cycle.checked_sub(offset) {
        Some(d) => d,
        None => return Err(Smt160Error::OutOfBounds),
    };
    let t = match d.checked_mul(inverse_step) {
        Some(t) => t,
        None => return Err(Smt160Error::OutOfBounds),
    };
    if t.bits < MIN_TEMP_BITS || t.bits > MAX_TEMP_BITS {
        return Err(Smt160Error::OutOfBounds);
    }
    Ok(t)
}

/// Lowest value `apply_linearity_correction` can return (-55 °C), as raw `Q16` bits.
pub const MIN_CORRECTED_Q16_BITS: i32 = -3604480;
/// Highest value `apply_linearity_correction` can return (155 °C), as raw `Q16` bits.
pub const MAX_CORRECTED_Q16_BITS: i32 = 10158080;

/// Default non-linearity correction, narrowed to 16 fractional bits.
pub fn apply_linearity_correction(temperature: Q32) -> (r: Q16)
    ensures
        r.bits == spec_nlc(temperature.bits as int, spec_default_nlc_table()) / q16_one(),
        MIN_CORRECTED_Q16_BITS <= r.bits <= MAX_CORRECTED_Q16_BITS,
{
    let corrected = SignalDecoder::apply_nlc(temperature);
    proof {
        lemma_default_nlc_range(temperature.bits as int);
    }
    corrected.to_q16()
}

/// The EMA step `prev + (sample - prev) / 2^shift`, the division being an
/// arithmetic right shift (rounding towards negative infinity).
pub open spec fn spec_shift_ema(prev: int, sample: int, shift: u32) -> int {
    prev + (sample - prev) / (pow2(shift as nat) as int)
}

/// Exponential moving average with smoothing factor `2^-shift`.
pub fn apply_shift_ema_filter(prev: Q16, sample: Q16, shift: u32) -> (r: Q16)
    requires
        shift < 32,
        fits_i32(sample.bits - prev.bits),
    ensures
        r.bits == spec_shift_ema(prev.bits as int, sample.bits as int, shift),
        min_int(prev.bits as int, sample.bits as int) <= r.bits <= max_int(prev.bits as int, sample.bits as int),
{
    let delta = sample.sub(prev);
    let step = delta.shr(shift);
    proof {
        let k = pow2(shift as nat) as int;
        lemma_pow2_pos(shift as nat);
        let d = delta.bits as int;
        assert(step.bits == d / k);
        if d >= 0 {
            assert(0 <= d / k <= d) by (nonlinear_arith)
                requires d >= 0, k >= 1;
        } else {
            assert(d <= d / k <= 0) by (nonlinear_arith)
                requires d < 0, k >= 1;
        }
    }
    prev.add(step)
}

/// Stateless signal decoder converting timer ticks into temperatures.
pub struct SignalDecoder;

impl SignalDecoder {
    /// Decodes a PWM cycle (period and active time in timer ticks) into a
    /// temperature in °C. A zero period, an active time above the period, a
    /// duty cycle below 0.320 and a temperature outside -45 °C ..= 130 °C
    /// are rejected. Never panics, whatever the input.
    pub fn decode(period_ticks: u64, active_ticks: u64) -> (r: Result<Q32, Smt160Error>)
        ensures
            r == spec_decode(period_ticks, active_ticks),
            r matches Ok(t) ==> MIN_TEMP_BITS <= t.bits <= MAX_TEMP_BITS,
    {
        if period_ticks == 0 {
            return Err(Smt160Error::SensorTimeout);
        }
        if active_ticks > period_ticks {
            return Err(Smt160Error::InvalidSignal);
        }
        if (active_ticks as u128) * 1000 < (period_ticks as u128) * (MIN_DUTY_PERMILLE as u128) {
            return Err(Smt160Error::OutOfBounds);
        }
        let dc = Q32::ratio(active_ticks, period_ticks);
        let shifted = dc.sub(Q32::from_bits(DC_OFFSET_BITS));
        assert(fits_i64(mul_bits(shifted.bits as int, INVERSE_STEP_BITS as int)));
        let raw_temp = shifted.mul(Q32::from_bits(INVERSE_STEP_BITS));
        if raw_temp.bits < MIN_TEMP_BITS || raw_temp.bits > MAX_TEMP_BITS {
            return Err(Smt160Error::OutOfBounds);
        }
        Ok(raw_temp)
    }


    /// Applies the adaptive EWMA filter `y = alpha * x + (1 - alpha) * y_prev`:
    /// alpha = 0.8 when the reading deviates by more than 5 °C from the last
    /// output or within the first 16 samples, alpha = 0.1 otherwise; the first
    /// reading passes through unchanged.
    pub fn apply_adaptive_filter(current: Q32, last: Option<Q32>, count: u32) -> (r: Q32)
        ensures
            r.bits == spec_adaptive_filter(current.bits as int, last, count),
            last matches Some(l) ==> min_int(current.bits as int, l.bits as int) - 1 <= r.bits
                <= max_int(current.bits as int, l.bits as int),
    {
        let last_val = match last {
            Some(v) => v,
            None => return current,
        };
        // The deviation is computed wide, so that every pair of values is accepted.
        let delta = (current.bits as i128) - (last_val.bits as i128);
        let deviation = if delta < 0 { -delta } else { delta };
        let alpha = if deviation > FAST_TRACK_DEVIATION_BITS as i128 || count < FAST_TRACK_SAMPLES {
            Q32::from_bits(ALPHA_FAST_BITS)
        } else {
            Q32::from_bits(ALPHA_SLOW_BITS)
        };
        let one_minus_alpha = Q32::from_int(1).sub(alpha);
        proof {
            lemma_ewma_fits(alpha.bits as int, current.bits as int, last_val.bits as int);
        }
        let weighted_current = alpha.mul(current);
        let weighted_last = one_minus_alpha.mul(last_val);
        weighted_current.add(weighted_last)
    }

    /// Applies the default non-linearity correction table.
    pub fn apply_nlc(raw_temp: Q32) -> (r: Q32)
        ensures
            r.bits == spec_nlc(raw_temp.bits as int, spec_default_nlc_table()),
            -55 * q32_one() <= r.bits <= 155 * q32_one(),
    {
        let table = Self::default_nlc_table();
        proof {
            lemma_default_table_fits(raw_temp.bits as int);
            lemma_default_nlc_range(raw_temp.bits as int);
        }
        Self::apply_nlc_custom(raw_temp, &table)
    }

    /// The default non-linearity correction table for standard SMT160 sensors.
    pub fn default_nlc_table() -> (r: [(Q32, Q32); 5])
        ensures
            r@ == spec_default_nlc_table(),
    {
        let r = [
            (Q32 { bits: -128849018880 }, Q32 { bits: -130137505792 }),
            (Q32 { bits: 0 }, Q32 { bits: 0 }),
            (Q32 { bits: 107374182400 }, Q32 { bits: 107374182400 }),
            (Q32 { bits: 343597383680 }, Q32 { bits: 341020410060 }),
            (Q32 { bits: 515396075520 }, Q32 { bits: 511099977728 }),
        ];
        assert(r@ =~= spec_default_nlc_table());
        r
    }

    /// Applies non-linearity correction with a custom table of
    /// `(input, output)` points, by linear interpolation between points and
    /// clamping to the extreme outputs outside the table.
    pub fn apply_nlc_custom(raw_temp: Q32, table: &[(Q32, Q32)]) -> (r: Q32)
        requires
            nlc_fits(raw_temp.bits as int, table@),
        ensures
            r.bits == spec_nlc(raw_temp.bits as int, table@),
            // Inside the table, a segment with the reading is always found.
            table@.len() > 0 && tx(table@, 0) < raw_temp.bits < tx(table@, table@.len() - 1)
                ==> nlc_segment(raw_temp.bits as int, table@, 0) >= 0,
    {
        assert(table@.take(table@.len() as int) =~= table@);
        Self::interpolate(raw_temp, table, table.len())
    }

    /// Non-linearity correction with a custom table, as `apply_nlc_custom`,
    /// or `None` when an intermediate value of the interpolation is not
    /// representable.
    pub fn apply_nlc_checked(raw_temp: Q32, table: &[(Q32, Q32)]) -> (r: Option<Q32>)
        ensures
            r == (if nlc_fits(raw_temp.bits as int, table@) {
                Some(Q32 { bits: spec_nlc(raw_temp.bits as int, table@) as i64 })
            } else {
                None
            }),
            r matches Some(c) ==> c.bits == spec_nlc(raw_temp.bits as int, table@),
    {
        let ghost t = table@;
        let ghost raw = raw_temp.bits as int;
        let len = table.len();
        if len == 0 {
            return Some(raw_temp);
        }
        if raw_temp.bits <= table[0].0.bits {
            return Some(table[0].1);
        }
        let last = len - 1;
        if raw_temp.bits >= table[last].0.bits {
            return Some(table[last].1);
        }
        proof {
            lemma_nlc_segment_found(raw, t, 0);
        }
        let mut i: usize = 0;
        while i < last
            invariant
                t == table@,
                raw == raw_temp.bits,
                last + 1 == t.len(),
                0 <= i <= last,
                tx(t, i as int) < raw < tx(t, last as int),
                nlc_segment(raw, t, 0) == nlc_segment(raw, t, i as int),
                0 <= nlc_segment(raw, t, 0),
                tx(t, 0) < raw,
            decreases last - i,
        {
            let (x0, y0) = table[i];
            let (x1, y1) = table[i + 1];
            if raw_temp.bits >= x0.bits && raw_temp.bits <= x1.bits {
                proof {
                    lemma_nlc_segment_found(raw, t, i as int);
                }
                let dx = match x1.checked_sub(x0) {
                    Some(v) => v,
                    None => return None,
                };
                let dy = match y1.checked_sub(y0) {
                    Some(v) => v,
                    None => return None,
                };
                let u = match raw_temp.checked_sub(x0) {
                    Some(v) => v,
                    None => return None,
                };
                let m = match u.checked_mul(dy) {
                    Some(v) => v,
                    None => return None,
                };
                let q = match m.checked_div(dx) {
                    Some(v) => v,
                    None => return None,
                };
                return y0.checked_add(q);
            }
            i += 1;
        }
        proof {
            lemma_nlc_segment_found(raw, t, i as int);
        }
        Some(raw_temp)
    }

    /// Correction by the first `len` points of `table`.
    pub(crate) fn interpolate(raw_temp: Q32, table: &[(Q32, Q32)], len: usize) -> (r: Q32)
        requires
            len <= table@.len(),
            nlc_fits(raw_temp.bits as int, table@.take(len as int)),
        ensures
            r.bits == spec_nlc(raw_temp.bits as int, table@.take(len as int)),
            len > 0 && tx(table@, 0) < raw_temp.bits < tx(table@, len - 1)
                ==> nlc_segment(raw_temp.bits as int, table@.take(len as int), 0) >= 0,
    {
        let ghost t = table@.take(len as int);
        let ghost raw = raw_temp.bits as int;
        if len == 0 {
            return raw_temp;
        }
        if raw_temp.bits <= table[0].0.bits {
            return table[0].1;
        }
        let last = len - 1;
        if raw_temp.bits >= table[last].0.bits {
            return table[last].1;
        }
        proof {
            lemma_nlc_segment_found(raw, t, 0);
        }
        let mut i: usize = 0;
        while i < last
            invariant
                t == table@.take(len as int),
                len <= table@.len(),
                raw == raw_temp.bits,
                last + 1 == t.len(),
                0 <= i <= last,
                tx(t, i as int) < raw < tx(t, last as int),
                nlc_segment(raw, t, 0) == nlc_segment(raw, t, i as int),
                0 <= nlc_segment(raw, t, 0),
                nlc_fits(raw, t),
                tx(t, 0) < raw,
            decreases last - i,
        {
            let (x0, y0) = table[i];
            let (x1, y1) = table[i + 1];
            if raw_temp.bits >= x0.bits && raw_temp.bits <= x1.bits {
                let dx = x1.sub(x0);
                let dy = y1.sub(y0);
                let q = raw_temp.sub(x0).mul(dy).div(dx);
                return y0.add(q);
            }
            i += 1;
        }
        raw_temp
    }
}

/// The default table's correction never overflows.
pub proof fn lemma_default_table_fits(raw: int)
    ensures
        nlc_fits(raw, spec_default_nlc_table()),
{
    let t = spec_default_nlc_table();
    if t.len() > 0 && tx(t, 0) < raw < tx(t, t.len() - 1) {
        lemma_nlc_segment_found(raw, t, 0);
        let i = nlc_segment(raw, t, 0);
        lemma_interp_fits_bounded(raw, tx(t, i), ty(t, i), tx(t, i + 1), ty(t, i + 1));
    }
}

/// Interpolation on a segment `x0 < raw <= x1` whose coordinates are within
/// +/- 2^46 raw bits (+/- 16384 °C) involves no overflow.
pub proof fn lemma_interp_fits_bounded(raw: int, x0: int, y0: int, x1: int, y1: int)
    requires
        x0 < raw <= x1,
        -0x4000_0000_0000 <= x0 <= 0x4000_0000_0000,
        -0x4000_0000_0000 <= x1 <= 0x4000_0000_0000,
        -0x4000_0000_0000 <= y0 <= 0x4000_0000_0000,
        -0x4000_0000_0000 <= y1 <= 0x4000_0000_0000,
    ensures
        interp_fits(raw, x0, y0, x1, y1),
        min_int(y0, y1) - q32_one() <= interp_bits(raw, x0, y0, x1, y1)
            <= max_int(y0, y1) + q32_one(),
{
    let u = raw - x0;
    let dx = x1 - x0;
    let dy = y1 - y0;
    let ady = if dy < 0 { -dy } else { dy };
    let m = u * dy;
    assert(-(dx * ady) <= m <= dx * ady) by (nonlinear_arith)
        requires
            0 < u <= dx,
            m == u * dy,
            ady == (if dy < 0 { -dy } else { dy }),
    ;
    assert(dx * ady <= 0x8000_0000_0000 * 0x8000_0000_0000) by (nonlinear_arith)
        requires
            0 < dx <= 0x8000_0000_0000,
            0 <= ady <= 0x8000_0000_0000,
    ;
    let p = m / q32_one();
    assert(p * q32_one() <= m < p * q32_one() + q32_one());
    let big_p = p * q32_one();
    let ap = if big_p < 0 { -big_p } else { big_p };
    assert(ap <= dx * ady + q32_one());
    let q = div_bits(p, dx);
    assert(q == trunc_div(big_p, dx));
    let aq = ap / dx;
    assert(q == aq || q == -aq);
    assert(aq * dx <= ap) by (nonlinear_arith)
        requires
            aq == ap / dx,
            dx > 0,
            ap >= 0,
    ;
    assert(aq <= ady + q32_one()) by (nonlinear_arith)
        requires
            aq * dx <= ap,
            ap <= dx * ady + 0x1_0000_0000,
            dx >= 1,
            ady >= 0,
            aq >= 0,
    ;
    if dy >= 0 {
        assert(m >= 0) by (nonlinear_arith)
            requires m == u * dy, u > 0, dy >= 0;
        assert(q >= 0);
    } else {
        assert(m <= 0) by (nonlinear_arith)
            requires m == u * dy, u > 0, dy < 0;
        assert(q <= 0);
    }
}

/// For every input, the default correction stays within -55 °C and 155 °C.
pub proof fn lemma_default_nlc_range(raw: int)
    ensures
        -55 * q32_one() <= spec_nlc(raw, spec_default_nlc_table()) <= 155 * q32_one(),
{
    let t = spec_default_nlc_table();
    if tx(t, 0) < raw < tx(t, t.len() - 1) {
        lemma_nlc_segment_found(raw, t, 0);
        let i = nlc_segment(raw, t, 0);
        lemma_interp_fits_bounded(raw, tx(t, i), ty(t, i), tx(t, i + 1), ty(t, i + 1));
        assert(-130137505792 <= ty(t, i) <= 511099977728);
        assert(-130137505792 <= ty(t, i + 1) <= 511099977728);
    }
}

/// The weighted average of two representable values, and its two terms,
/// are representable.
pub proof fn lemma_ewma_fits(a: int, c: int, l: int)
    requires
        0 <= a <= q32_one(),
        fits_i64(c),
        fits_i64(l),
    ensures
        fits_i64(mul_bits(a, c)),
        fits_i64(mul_bits(q32_one() - a, l)),
        fits_i64(ewma_bits(a, c, l)),
        min_int(c, l) - 1 <= ewma_bits(a, c, l) <= max_int(c, l),
{
    lemma_mul_bits_shrinks(a, c);
    lemma_mul_bits_shrinks(q32_one() - a, l);
    lemma_ewma_between(a, c, l);
    let k = q32_one();
    let b = k - a;
    assert(a * c >= a * i64::MIN) by (nonlinear_arith)
        requires a >= 0, c >= i64::MIN;
    assert(b * l >= b * i64::MIN) by (nonlinear_arith)
        requires b >= 0, l >= i64::MIN;
    vstd::arithmetic::div_mod::lemma_div_is_ordered(a * i64::MIN, a * c, k);
    vstd::arithmetic::div_mod::lemma_div_is_ordered(b * i64::MIN, b * l, k);
    assert((a * i64::MIN) / k == -a * 0x8000_0000);
    assert((b * i64::MIN) / k == -b * 0x8000_0000);
}

/// Scaling by a factor in [0, 1] does not increase the magnitude.
pub proof fn lemma_mul_bits_shrinks(a: int, c: int)
    requires
        0 <= a <= q32_one(),
    ensures
        abs_int(mul_bits(a, c)) <= abs_int(c),
{
    let k = q32_one();
    let f = (a * c) / k;
    assert(f * k <= a * c < f * k + k);
    assert(-(k * abs_int(c)) <= a * c <= k * abs_int(c)) by (nonlinear_arith)
        requires
            0 <= a <= k,
    ;
    assert(abs_int(f) <= abs_int(c)) by (nonlinear_arith)
        requires
            f * k <= a * c < f * k + k,
            -(k * abs_int(c)) <= a * c <= k * abs_int(c),
            k > 0,
    ;
}

/// Coordinates within +/- 2^46 raw bits (+/- 16384 °C).
pub open spec fn within_nlc_limit(v: int) -> bool {
    -0x4000_0000_0000 <= v <= 0x4000_0000_0000
}

/// Every point of the table lies within the correction limit.
pub open spec fn table_bounded(t: Seq<(Q32, Q32)>) -> bool {
    forall|i: int| 0 <= i < t.len() ==> within_nlc_limit(tx(t, i)) && within_nlc_limit(ty(t, i))
}

/// With a bounded table, the correction of a bounded reading never
/// overflows and stays within the limit plus one degree.
pub proof fn lemma_bounded_table_nlc(raw: int, t: Seq<(Q32, Q32)>)
    requires
        table_bounded(t),
        within_nlc_limit(raw),
    ensures
        nlc_fits(raw, t),
        abs_int(spec_nlc(raw, t)) <= 0x4000_0000_0000 + q32_one(),
{
    if t.len() > 0 && tx(t, 0) < raw < tx(t, t.len() - 1) {
        lemma_nlc_segment_found(raw, t, 0);
        let i = nlc_segment(raw, t, 0);
        lemma_interp_fits_bounded(raw, tx(t, i), ty(t, i), tx(t, i + 1), ty(t, i + 1));
    } else if t.len() > 0 {
        assert(within_nlc_limit(ty(t, 0)));
        assert(within_nlc_limit(ty(t, t.len() - 1)));
    }
}

/// The default table is bounded.
pub proof fn lemma_default_table_bounded()
    ensures
        table_bounded(spec_default_nlc_table()),
{
}

/// Decoding rejects a duty cycle below 0.320; any other cycle is decoded by
/// the duty cycle followed by the transfer function with the standard
/// constants.
pub proof fn lemma_decode_is_pipeline(period: u64, active: u64)
    ensures
        period != 0 && active <= period && below_min_duty(period, active)
            ==> spec_decode(period, active) == Err::<Q32, Smt160Error>(Smt160Error::OutOfBounds),
        !(period != 0 && active <= period && below_min_duty(period, active)) ==> spec_decode(period, active) == (match spec_calculate_duty_cycle(active, period) {
            Err(e) => Err(e),
            Ok(dc) => spec_temperature_celsius(dc.bits as int, DC_OFFSET_BITS as int, INVERSE_STEP_BITS as int),
        }),
{
    if period != 0 && active <= period {
        let dc = spec_duty_cycle(period as int, active as int);
        assert(0 <= dc <= q32_one()) by {
            assert(active as int * q32_one() <= period as int * q32_one()) by (nonlinear_arith)
                requires active <= period;
            vstd::arithmetic::div_mod::lemma_div_is_ordered(active as int * q32_one(), period as int * q32_one(), period as int);
            vstd::arithmetic::div_mod::lemma_div_multiples_vanish(q32_one(), period as int);
            assert(period as int * q32_one() == q32_one() * period as int) by (nonlinear_arith);
        }
    }
}

/// Correction by an empty table is the identity, and below (above) the
/// table it gives the first (last) output.
pub proof fn lemma_nlc_clamps(raw: int, t: Seq<(Q32, Q32)>)
    ensures
        t.len() == 0 ==> spec_nlc(raw, t) == raw,
        t.len() > 0 && raw <= tx(t, 0) ==> spec_nlc(raw, t) == ty(t, 0),
        t.len() > 0 && raw >= tx(t, t.len() - 1) && raw > tx(t, 0) ==> spec_nlc(raw, t) == ty(t, t.len() - 1),
{
}

/// Inside a bounded table, the correction lies between the outputs of the
/// segment containing the reading, up to one degree.
pub proof fn lemma_nlc_within_segment(raw: int, t: Seq<(Q32, Q32)>)
    requires
        table_bounded(t),
        t.len() > 0,
        tx(t, 0) < raw < tx(t, t.len() - 1),
    ensures
        ({
            let i = nlc_segment(raw, t, 0);
            &&& 0 <= i < t.len() - 1
            &&& tx(t, i) < raw <= tx(t, i + 1)
            &&& min_int(ty(t, i), ty(t, i + 1)) - q32_one() <= spec_nlc(raw, t) <= max_int(ty(t, i), ty(t, i + 1)) + q32_one()
        }),
{
    lemma_nlc_segment_found(raw, t, 0);
    let i = nlc_segment(raw, t, 0);
    lemma_interp_fits_bounded(raw, tx(t, i), ty(t, i), tx(t, i + 1), ty(t, i + 1));
}

/// The adaptive filter's weights: the first reading passes unchanged;
/// afterwards the output is 0.8 of the reading plus 0.2 of the previous
/// output when the reading deviates from it by more than 5 °C or fewer than
/// 16 readings came before, and 0.1 of the reading plus 0.9 of the previous
/// output otherwise (each weighted term rounded down, raw `Q32` bits).
pub proof fn lemma_filter_weights(c: int, l: Q32, count: u32)
    ensures
        spec_adaptive_filter(c, None, count) == c,
        ({
            let d = c - l.bits;
            let dev = if d < 0 { -d } else { d };
            let r = spec_adaptive_filter(c, Some(l), count);
            &&& (dev > 5 * 0x1_0000_0000 || count < 16) ==> r == (3435973837 * c) / 0x1_0000_0000
                + ((0x1_0000_0000 - 3435973837) * l.bits) / 0x1_0000_0000
            &&& !(dev > 5 * 0x1_0000_0000 || count < 16) ==> r == (429496730 * c) / 0x1_0000_0000
                + ((0x1_0000_0000 - 429496730) * l.bits) / 0x1_0000_0000
        }),
{
}

/// The transfer function with the caller's constants: a temperature is
/// `(duty_cycle - offset) * inverse_step` (rounded down, raw `Q32` bits),
/// accepted exactly when it is representable and within -45 °C ..= 130 °C.
pub proof fn lemma_transfer_function(dc: int, offset: int, inverse_step: int)
    ensures
        spec_temperature_celsius(dc, offset, inverse_step) matches Ok(t) ==> {
            &&& t.bits == ((dc - offset) * inverse_step) / 0x1_0000_0000
            &&& -45 * 0x1_0000_0000 <= t.bits <= 130 * 0x1_0000_0000
        },
        ({
            let t = ((dc - offset) * inverse_step) / 0x1_0000_0000;
            (i64::MIN <= dc - offset <= i64::MAX && -45 * 0x1_0000_0000 <= t <= 130 * 0x1_0000_0000)
                ==> spec_temperature_celsius(dc, offset, inverse_step) == Ok::<Q32, Smt160Error>(Q32 { bits: t as i64 })
        }),
{
}
} // verus!
