//! Online statistics of the measured PWM period: mean and variance
//! (Welford's algorithm), extremes and a jitter histogram.

use vstd::prelude::*;
use crate::fixed_point::{Q32, q32_one, min_int, max_int, sqrt_floor, lemma_sqrt_floor_exists, fits_i64, fits_i32, mul_bits, div_bits, trunc_div};

verus! {

/// The histogram bucket of a deviation from the mean, in whole ticks:
/// < -20, -20..-11, -10..-6, -5..-2, -1..1, 2..5, 6..10, 11..20, > 20.
pub open spec fn bucket_of(diff: int) -> int {
    if diff < -20 {
        0
    } else if diff < -10 {
        1
    } else if diff < -5 {
        2
    } else if diff < -1 {
        3
    } else if diff <= 1 {
        4
    } else if diff <= 5 {
        5
    } else if diff <= 10 {
        6
    } else if diff <= 20 {
        7
    } else {
        8
    }
}

/// The deviation of `ticks` from `mean` (raw `Q32` bits), in whole ticks
/// rounded towards negative infinity.
pub open spec fn tick_deviation(ticks: u32, mean: int) -> int {
    (ticks * q32_one() - mean) / q32_one()
}

/// Recording `ticks` against `mean` involves no overflow.
pub open spec fn histogram_fits(ticks: u32, mean: int) -> bool {
    ticks <= i32::MAX && fits_i64(ticks * q32_one() - mean)
}

/// `x + 1`, saturating at `u32::MAX`.
pub open spec fn saturating_inc(x: u32) -> u32 {
    if x == u32::MAX { x } else { (x + 1) as u32 }
}

/// A compact histogram of the period's deviation from its running mean.
#[derive(Debug, Clone, Copy, PartialEq, Eq)]
pub struct JitterHistogram {
    /// Bucket counts; see `bucket_of`.
    pub counts: [u32; 9],
}

impl JitterHistogram {
    /// An empty histogram.
    pub fn new() -> (r: JitterHistogram)
        ensures
            forall|i: int| 0 <= i < 9 ==> r.counts@[i] == 0,
    {
        JitterHistogram { counts: [0u32; 9] }
    }

    /// Counts one period of `ticks` against the running `mean`.
    pub fn update(&mut self, ticks: u32, mean: Q32)
        requires
            histogram_fits(ticks, mean.bits as int),
        ensures
            final(self).counts@ == old(self).counts@.update(
                bucket_of(tick_deviation(ticks, mean.bits as int)),
                saturating_inc(old(self).counts@[bucket_of(tick_deviation(ticks, mean.bits as int))]),
            ),
    {
        let x = Q32::from_u32(ticks);
        let d = x.sub(mean);
        assert(fits_i32((d.bits as int) / q32_one()));
        let diff = d.floor_to_i32();
        let bucket: usize = if diff < -20 {
            0
        } else if diff < -10 {
            1
        } else if diff < -5 {
            2
        } else if diff < -1 {
            3
        } else if diff <= 1 {
            4
        } else if diff <= 5 {
            5
        } else if diff <= 10 {
            6
        } else if diff <= 20 {
            7
        } else {
            8
        };
        let c = self.counts[bucket];
        self.counts[bucket] = c.saturating_add(1);
    }
}


/// The square root of `x` rounded to the nearest integer (there are no
/// ties for integers).
pub open spec fn sqrt_nearest(x: int) -> int {
    let f = sqrt_floor(x);
    if x - f * f > f { f + 1 } else { f }
}

/// Welford's increment of the mean: `delta / count`, rounded towards zero.
pub open spec fn welford_inc(delta: int, count: int) -> int {
    div_bits(delta, count * q32_one())
}

/// `delta / count` (as computed) lies between 0 and `delta`.
pub proof fn lemma_welford_inc_between(delta: int, count: int)
    requires
        count >= 1,
    ensures
        delta >= 0 ==> 0 <= welford_inc(delta, count) <= delta,
        delta < 0 ==> delta <= welford_inc(delta, count) <= 0,
        count == 1 ==> welford_inc(delta, count) == delta,
{
    let k = q32_one();
    let ck = count * k;
    assert(ck >= k) by (nonlinear_arith)
        requires count >= 1, k > 0, ck == count * k;
    let a = if delta < 0 { -delta } else { delta };
    let q = (a * k) / ck;
    vstd::arithmetic::div_mod::lemma_fundamental_div_mod(a * k, ck);
    vstd::arithmetic::div_mod::lemma_mod_pos_bound(a * k, ck);
    assert(q * ck <= a * k) by (nonlinear_arith)
        requires
            a * k == ck * q + (a * k) % ck,
            (a * k) % ck >= 0,
    ;
    if count == 1 {
        assert(ck == k);
        assert((a * k) / k == a);
        assert(q == a);
    }
    assert(q <= a) by (nonlinear_arith)
        requires q * ck <= a * k, ck >= k, k > 0, a >= 0, q >= 0;
    assert(welford_inc(delta, count) == trunc_div(delta * k, ck));
    if delta < 0 {
        assert(delta * k < 0);
        assert(-(delta * k) == a * k);
    } else {
        assert(delta * k >= 0);
    }
}

/// Running statistics of the measured period.
#[derive(Debug, Clone, Copy)]
pub struct Diagnostics {
    /// Running mean of the period, raw `Q32` bits.
    pub mean_ticks: i64,
    /// Running sum of squared deviations (Welford's M2), raw `Q32` bits.
    pub m2_ticks: i64,
    /// Number of periods recorded.
    pub count: u32,
    /// Shortest period recorded (`u32::MAX` when none).
    pub min_ticks: u32,
    /// Longest period recorded (0 when none).
    pub max_ticks: u32,
    /// Distribution of the period's deviation from the running mean.
    pub histogram: JitterHistogram,
}

impl Diagnostics {
    /// The mean after recording `ticks`, raw bits.
    pub open spec fn next_mean(self, ticks: u32) -> int {
        self.mean_ticks + welford_inc(ticks * q32_one() - self.mean_ticks, self.count + 1)
    }

    /// M2 after recording `ticks`, raw bits.
    pub open spec fn next_m2(self, ticks: u32) -> int {
        self.m2_ticks + mul_bits(
            ticks * q32_one() - self.mean_ticks,
            ticks * q32_one() - self.next_mean(ticks),
        )
    }

    /// The sample variance, raw bits (0 with fewer than two samples).
    pub open spec fn variance_bits(self) -> int {
        if self.count < 2 { 0 } else { div_bits(self.m2_ticks as int, (self.count - 1) * q32_one()) }
    }

    /// The standard deviation, raw bits: the square root of the variance
    /// rounded to the nearest, 0 when the variance is not positive.
    pub open spec fn std_dev_bits(self) -> int {
        if self.variance_bits() > 0 { sqrt_nearest(self.variance_bits() * q32_one()) } else { 0 }
    }

    /// `self` is `old` after recording `ticks`.
    pub open spec fn is_update_of(self, old: Diagnostics, ticks: u32) -> bool {
        &&& self.min_ticks == if ticks < old.min_ticks { ticks } else { old.min_ticks }
        &&& self.max_ticks == if ticks > old.max_ticks { ticks } else { old.max_ticks }
        &&& self.count == old.count + 1
        &&& self.mean_ticks == old.next_mean(ticks)
        &&& self.m2_ticks == old.next_m2(ticks)
        &&& self.histogram.counts@ == old.histogram.counts@.update(
            bucket_of(tick_deviation(ticks, old.next_mean(ticks))),
            saturating_inc(old.histogram.counts@[bucket_of(tick_deviation(ticks, old.next_mean(ticks)))]),
        )
    }

    /// Recording `ticks` involves no overflow.
    pub open spec fn update_fits(self, ticks: u32) -> bool {
        &&& self.count < i32::MAX
        &&& ticks <= i32::MAX
        &&& fits_i64(ticks * q32_one() - self.mean_ticks)
        &&& fits_i64(ticks * q32_one() - self.next_mean(ticks))
        &&& fits_i64(mul_bits(ticks * q32_one() - self.mean_ticks, ticks * q32_one() - self.next_mean(ticks)))
        &&& fits_i64(self.next_m2(ticks))
    }

    /// The consistency of statistics built by `new` and `update`: the mean
    /// lies between the extremes and M2 is not negative.
    pub open spec fn wf(self) -> bool {
        if self.count == 0 {
            &&& self.min_ticks == u32::MAX
            &&& self.max_ticks == 0
            &&& self.mean_ticks == 0
            &&& self.m2_ticks == 0
        } else {
            &&& self.min_ticks <= self.max_ticks <= i32::MAX
            &&& self.min_ticks * q32_one() <= self.mean_ticks <= self.max_ticks * q32_one()
            &&& self.m2_ticks >= 0
        }
    }

    /// Empty statistics.
    pub fn new() -> (r: Diagnostics)
        ensures
            r.count == 0,
            r.mean_ticks == 0,
            r.m2_ticks == 0,
            r.min_ticks == u32::MAX,
            r.max_ticks == 0,
            forall|i: int| 0 <= i < 9 ==> r.histogram.counts@[i] == 0,
            r.wf(),
    {
        Diagnostics {
            mean_ticks: 0,
            m2_ticks: 0,
            count: 0,
            min_ticks: u32::MAX,
            max_ticks: 0,
            histogram: JitterHistogram::new(),
        }
    }

    /// Records a period of `ticks`.
    pub fn update(&mut self, ticks: u32)
        requires
            old(self).update_fits(ticks),
        ensures
            final(self).is_update_of(*old(self), ticks),
            old(self).wf() ==> final(self).wf(),
    {
        let ghost old_self = *self;
        if ticks < self.min_ticks {
            self.min_ticks = ticks;
        }
        if ticks > self.max_ticks {
            self.max_ticks = ticks;
        }
        let count = self.count + 1;
        self.count = count;
        let x = Q32::from_u32(ticks);
        let mean = Q32::from_bits(self.mean_ticks);
        let delta = x.sub(mean);
        proof {
            lemma_welford_inc_between(delta.bits as int, count as int);
        }
        let inc = delta.div(Q32::from_u32(count));
        let new_mean = mean.add(inc);
        let delta2 = x.sub(new_mean);
        let prod = delta.mul(delta2);
        let new_m2 = Q32::from_bits(self.m2_ticks).add(prod);
        self.mean_ticks = new_mean.bits;
        self.m2_ticks = new_m2.bits;
        proof {
            let d = delta.bits as int;
            let d2 = delta2.bits as int;
            assert(d * d2 >= 0) by (nonlinear_arith)
                requires
                    (d >= 0 && d2 >= 0) || (d <= 0 && d2 <= 0),
            ;
            assert(prod.bits >= 0);
            if old_self.wf() {
                let t = ticks * q32_one();
                if old_self.count == 0 {
                    assert(new_mean.bits == t);
                } else {
                    assert(old_self.min_ticks * q32_one() <= mean.bits <= old_self.max_ticks * q32_one());
                    assert(min_int(old_self.min_ticks as int, ticks as int) * q32_one() <= new_mean.bits);
                    assert(new_mean.bits <= max_int(old_self.max_ticks as int, ticks as int) * q32_one());
                }
            }
        }
        self.histogram.update(ticks, new_mean);
    }

    /// Whether `update(ticks)` can record `ticks` without overflow.
    pub fn can_update(&self, ticks: u32) -> (r: bool)
        ensures
            r == self.update_fits(ticks),
    {
        if self.count >= 0x7fff_ffff || ticks > 0x7fff_ffff {
            return false;
        }
        let count = self.count + 1;
        let x = Q32::from_u32(ticks);
        let mean = Q32::from_bits(self.mean_ticks);
        let delta = match x.checked_sub(mean) {
            Some(d) => d,
            None => return false,
        };
        proof {
            lemma_welford_inc_between(delta.bits as int, count as int);
        }
        let new_mean = mean.add(delta.div(Q32::from_u32(count)));
        let delta2 = match x.checked_sub(new_mean) {
            Some(d) => d,
            None => return false,
        };
        let prod = match delta.checked_mul(delta2) {
            Some(p) => p,
            None => return false,
        };
        self.m2_ticks.checked_add(prod.bits).is_some()
    }

    /// Sample variance of the recorded periods (0 with fewer than two).
    pub fn variance(&self) -> (r: Q32)
        requires
            self.count <= 0x8000_0000,
        ensures
            r.bits == self.variance_bits(),
            self.wf() ==> r.bits >= 0,
    {
        if self.count < 2 {
            Q32::from_int(0)
        } else {
            proof {
                lemma_welford_inc_between(self.m2_ticks as int, self.count - 1);
            }
            Q32::from_bits(self.m2_ticks).div(Q32::from_u32(self.count - 1))
        }
    }

    /// Standard deviation of the recorded periods: the square root of the
    /// variance rounded to the nearest (0 when the variance is not positive).
    pub fn std_dev(&self) -> (r: Q32)
        requires
            self.count <= 0x8000_0000,
        ensures
            r.bits == self.std_dev_bits(),
    {
        let v = self.variance();
        if v.bits > 0 {
            let f = v.sqrt();
            let ghost x = v.bits * q32_one();
            let n: i128 = (v.bits as i128) * 0x1_0000_0000i128;
            let fb = f.bits as i128;
            proof {
                assert(fb * fb <= x);
                assert(x < 0x8000_0000_0000_0000_0000_0000) by (nonlinear_arith)
                    requires x == v.bits * q32_one(), v.bits <= i64::MAX, q32_one() == 0x1_0000_0000;
                assert(fb < 0x1_0000_0000_0000) by (nonlinear_arith)
                    requires fb * fb < 0x8000_0000_0000_0000_0000_0000, fb >= 0;
            }
            let ff = fb * fb;
            if n - ff > fb {
                Q32::from_bits(f.bits + 1)
            } else {
                f
            }
        } else {
            Q32::from_int(0)
        }
    }

    /// RMS jitter: the standard deviation of the period.
    pub fn jitter_rms(&self) -> (r: Q32)
        requires
            self.count <= 0x8000_0000,
        ensures
            r.bits == self.std_dev_bits(),
    {
        self.std_dev()
    }

    /// Running mean of the period.
    pub fn mean_period(&self) -> (r: Q32)
        ensures
            r.bits == self.mean_ticks,
    {
        Q32::from_bits(self.mean_ticks)
    }

    /// Peak-to-peak jitter: longest minus shortest period (0 when none).
    pub fn jitter_p2p(&self) -> (r: u32)
        ensures
            r == if self.max_ticks >= self.min_ticks { self.max_ticks - self.min_ticks } else { 0 },
    {
        if self.max_ticks >= self.min_ticks {
            self.max_ticks - self.min_ticks
        } else {
            0
        }
    }
}

/// Recording a period keeps the statistics consistent.
pub proof fn lemma_update_keeps_wf(old: Diagnostics, new: Diagnostics, ticks: u32)
    requires
        old.wf(),
        new.is_update_of(old, ticks),
        ticks <= i32::MAX,
    ensures
        new.wf(),
{
    let t = ticks * q32_one();
    let delta = t - old.mean_ticks;
    lemma_welford_inc_between(delta, old.count + 1);
    let inc = welford_inc(delta, old.count + 1);
    let d2 = t - old.next_mean(ticks);
    assert(d2 == delta - inc);
    assert(delta * d2 >= 0) by (nonlinear_arith)
        requires
            (delta >= 0 && d2 >= 0) || (delta <= 0 && d2 <= 0),
    ;
    assert(mul_bits(delta, d2) >= 0) by {
        vstd::arithmetic::div_mod::lemma_div_pos_is_pos(delta * d2, q32_one());
    }
    if old.count > 0 {
        assert(min_int(old.min_ticks as int, ticks as int) * q32_one() <= new.mean_ticks);
        assert(new.mean_ticks <= max_int(old.max_ticks as int, ticks as int) * q32_one());
    }
}

/// The smallest period of a sequence (`u32::MAX` for none).
pub open spec fn seq_min(xs: Seq<u32>) -> int
    decreases xs.len(),
{
    if xs.len() == 0 { u32::MAX as int } else { min_int(seq_min(xs.drop_last()), xs.last() as int) }
}

/// The largest period of a sequence (0 for none).
pub open spec fn seq_max(xs: Seq<u32>) -> int
    decreases xs.len(),
{
    if xs.len() == 0 { 0 } else { max_int(seq_max(xs.drop_last()), xs.last() as int) }
}

/// The sum of the periods of a sequence.
pub open spec fn seq_sum(xs: Seq<u32>) -> int
    decreases xs.len(),
{
    if xs.len() == 0 { 0 } else { seq_sum(xs.drop_last()) + xs.last() }
}

/// Welford's increment is `delta / count` up to less than one unit:
/// `count * inc` differs from `delta` by less than `count`.
pub proof fn lemma_welford_inc_error(delta: int, count: int)
    requires
        count >= 1,
    ensures
        -count < count * welford_inc(delta, count) - delta < count,
{
    let k = q32_one();
    let ck = count * k;
    assert(ck >= k) by (nonlinear_arith)
        requires count >= 1, k > 0, ck == count * k;
    let a = if delta < 0 { -delta } else { delta };
    let q = (a * k) / ck;
    let rem = (a * k) % ck;
    vstd::arithmetic::div_mod::lemma_fundamental_div_mod(a * k, ck);
    vstd::arithmetic::div_mod::lemma_mod_pos_bound(a * k, ck);
    assert(0 <= a - count * q < count) by (nonlinear_arith)
        requires
            a * k == ck * q + rem,
            0 <= rem < ck,
            ck == count * k,
            k > 0,
    ;
    assert(welford_inc(delta, count) == trunc_div(delta * k, ck));
    if delta < 0 {
        assert(-(delta * k) == a * k);
        assert(welford_inc(delta, count) == -q);
        assert(count * (-q) == -(count * q)) by (nonlinear_arith);
    } else {
        assert(welford_inc(delta, count) == q);
    }
}

/// The number of periods counted in a histogram.
pub open spec fn histogram_total(c: Seq<u32>) -> int {
    c[0] + c[1] + c[2] + c[3] + c[4] + c[5] + c[6] + c[7] + c[8]
}

/// Fresh statistics, as `Diagnostics::new` makes them.
pub open spec fn is_fresh(d: Diagnostics) -> bool {
    &&& d.count == 0
    &&& d.mean_ticks == 0
    &&& d.m2_ticks == 0
    &&& d.min_ticks == u32::MAX
    &&& d.max_ticks == 0
    &&& forall|i: int| 0 <= i < 9 ==> d.histogram.counts@[i] == 0
}

/// The statistics after recording the periods `xs` one by one, starting
/// fresh: `ds[k]` is the state after the first `k` periods.
pub open spec fn is_history(ds: Seq<Diagnostics>, xs: Seq<u32>) -> bool {
    &&& ds.len() == xs.len() + 1
    &&& is_fresh(ds[0])
    &&& forall|k: int| 0 <= k < xs.len() ==> #[trigger] ds[k + 1].is_update_of(ds[k], xs[k])
    &&& forall|k: int| 0 <= k < xs.len() ==> #[trigger] xs[k] <= i32::MAX
}

/// After recording `n` periods from fresh statistics: the count is `n`, the
/// extremes are those of the periods, the peak-to-peak jitter is their
/// spread, the histogram has counted every period (no bucket saturates
/// below 2^32 - 1 periods), and the mean lies between the extremes. The
/// mean is the average of the periods up to the rounding of the updates:
/// `k * mean` differs from the sum of the periods (both in raw `Q32` bits)
/// by at most `k * (k - 1) / 2`, i.e. the mean is within `(k - 1) / 2`
/// raw units of the exact average.
pub proof fn lemma_diagnostics_history(ds: Seq<Diagnostics>, xs: Seq<u32>, k: int)
    requires
        is_history(ds, xs),
        xs.len() < u32::MAX,
        0 <= k <= xs.len(),
    ensures
        ds[k].count == k,
        ds[k].min_ticks == seq_min(xs.take(k)),
        ds[k].max_ticks == seq_max(xs.take(k)),
        histogram_total(ds[k].histogram.counts@) == k,
        ds[k].wf(),
        k > 0 ==> seq_min(xs.take(k)) * q32_one() <= ds[k].mean_ticks <= seq_max(xs.take(k)) * q32_one(),
        k > 0 ==> seq_max(xs.take(k)) - seq_min(xs.take(k)) == (if ds[k].max_ticks >= ds[k].min_ticks {
            ds[k].max_ticks - ds[k].min_ticks
        } else {
            0int
        }),
        -(k * (k - 1)) <= 2 * (k * ds[k].mean_ticks - seq_sum(xs.take(k)) * q32_one()) <= k * (k - 1),
    decreases k,
{
    if k == 0 {
        assert(xs.take(0) =~= Seq::<u32>::empty());
        let c = ds[0].histogram.counts@;
        assert(c[0] == 0 && c[1] == 0 && c[2] == 0 && c[3] == 0 && c[4] == 0);
        assert(c[5] == 0 && c[6] == 0 && c[7] == 0 && c[8] == 0);
    } else {
        lemma_diagnostics_history(ds, xs, k - 1);
        let prev = ds[k - 1];
        let cur = ds[k];
        let x = xs[k - 1];
        let j = k - 1;
        assert(ds[j + 1].is_update_of(ds[j], xs[j]));
        assert(xs[j] <= i32::MAX);
        assert(cur.is_update_of(prev, x));
        assert(xs.take(k).drop_last() =~= xs.take(k - 1));
        assert(xs.take(k).last() == x);
        lemma_update_keeps_wf(prev, cur, x);
        let c = prev.histogram.counts@;
        let b = bucket_of(tick_deviation(x, prev.next_mean(x)));
        assert(0 <= b < 9);
        assert(c.len() == 9);
        assert(c[b] <= k - 1);
        assert(c[b] < u32::MAX);
        assert(histogram_total(cur.histogram.counts@) == histogram_total(c) + 1);
        // The mean: k * mean_k = (k - 1) * mean_(k-1) + x + err, |err| < k.
        let q = q32_one();
        let m0 = prev.mean_ticks as int;
        let delta = x * q - m0;
        lemma_welford_inc_error(delta, k);
        let inc = welford_inc(delta, k);
        let err = k * inc - delta;
        assert(cur.mean_ticks == m0 + inc);
        let s0 = seq_sum(xs.take(k - 1));
        assert(seq_sum(xs.take(k)) == s0 + x);
        let d0 = (k - 1) * m0 - s0 * q;
        let d1 = k * cur.mean_ticks - seq_sum(xs.take(k)) * q;
        assert(d1 == d0 + err) by (nonlinear_arith)
            requires
                d1 == k * cur.mean_ticks - seq_sum(xs.take(k)) * q,
                d0 == (k - 1) * m0 - s0 * q,
                cur.mean_ticks == m0 + inc,
                err == k * inc - delta,
                delta == x * q - m0,
                seq_sum(xs.take(k)) == s0 + x,
        ;
        assert(-(k * (k - 1)) <= 2 * d1 <= k * (k - 1)) by (nonlinear_arith)
            requires
                d1 == d0 + err,
                -((k - 1) * (k - 2)) <= 2 * d0 <= (k - 1) * (k - 2),
                -k < err < k,
                k >= 1,
        ;
    }
}

/// The variance is the sum of squared deviations divided by `n - 1`:
/// `(n - 1) * variance` differs from M2 by less than `n - 1` (raw `Q32`
/// bits); with fewer than two periods it is 0.
pub proof fn lemma_variance_of_m2(d: Diagnostics)
    ensures
        d.count < 2 ==> d.variance_bits() == 0,
        d.count >= 2 ==> -(d.count - 1) < (d.count - 1) * d.variance_bits() - d.m2_ticks < d.count - 1,
{
    if d.count >= 2 {
        lemma_welford_inc_error(d.m2_ticks as int, d.count - 1);
    }
}

/// The standard deviation is the square root of the variance: its square
/// differs from `variance * 2^32` (raw bits) by at most itself, and it is 0
/// when the variance is not positive.
pub proof fn lemma_std_dev_squares(d: Diagnostics)
    ensures
        d.variance_bits() <= 0 ==> d.std_dev_bits() == 0,
        d.variance_bits() > 0 ==> {
            let s = d.std_dev_bits();
            let x = d.variance_bits() * 0x1_0000_0000;
            &&& s >= 0
            &&& -s <= s * s - x <= s
        },
{
    if d.variance_bits() > 0 {
        let x = d.variance_bits() * q32_one();
        assert(x >= 0) by (nonlinear_arith)
            requires x == d.variance_bits() * q32_one(), d.variance_bits() > 0;
        lemma_sqrt_floor_exists(x);
        let f = sqrt_floor(x);
        assert(f * f <= x < (f + 1) * (f + 1));
        if x - f * f > f {
            assert((f + 1) * (f + 1) == f * f + 2 * f + 1) by (nonlinear_arith);
        }
    }
}
} // verus!
