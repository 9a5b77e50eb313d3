//! The hardware interface of the driver and the pure parts of its
//! platform adapters: capture-buffer decoding, prescaler and clock checks.

use vstd::prelude::*;
use crate::error::Smt160Error;

verus! {

/// One captured PWM cycle, in timer ticks.
#[derive(Debug, Clone, Copy, PartialEq, Eq, Structural)]
pub struct CapturedEdge {
    /// Total duration of the cycle.
    pub period_ticks: u64,
    /// Duration of the high phase.
    pub high_ticks: u64,
}

/// Hardware capture interface, implemented for each platform.
///
/// An adapter that describes itself to the verifier sets
/// `obeys_hal_spec` and gives `has_new_data` and `latest_edge`; for it,
/// `is_new_data_available` and `read_raw` report exactly those. Adapters
/// that do not (the default) are promised nothing about.
pub trait Smt160Hal {
    /// Whether the adapter's reads follow `has_new_data` and `latest_edge`.
    open spec fn obeys_hal_spec() -> bool {
        false
    }

    /// Whether the adapter holds a new, unread cycle.
    open spec fn has_new_data(&self) -> bool {
        false
    }

    /// The latest cycle the adapter holds.
    open spec fn latest_edge(&self) -> CapturedEdge {
        CapturedEdge { period_ticks: 0, high_ticks: 0 }
    }

    /// Initializes the hardware; `freq` is the timer clock frequency in Hz.
    fn setup(&mut self, freq: u32) -> Result<(), Smt160Error>;

    /// Whether a new, unread cycle has been captured.
    fn is_new_data_available(&self) -> (r: bool)
        ensures
            Self::obeys_hal_spec() ==> r == self.has_new_data(),
    ;

    /// The latest captured cycle.
    fn read_raw(&self) -> (r: CapturedEdge)
        ensures
            Self::obeys_hal_spec() ==> r == self.latest_edge(),
    ;

    /// Notifies the adapter that its interrupt occurred.
    fn notify(&self) {
    }
}

/// Timer clock of the STM32F1 APB1 timers, in Hz.
pub const STM32F1_TIMER_CLOCK_HZ: u32 = 72_000_000;

/// Lowest APB1 clock that reaches the 0.05 °C precision target, in Hz.
pub const MIN_PCLK1_HZ: u32 = 8_000_000;

/// Checks that the APB1 clock is at least 8 MHz.
pub fn validate_pclk1_hz(pclk1_hz: u32) -> (r: Result<(), Smt160Error>)
    ensures
        r == (if pclk1_hz < MIN_PCLK1_HZ { Err(Smt160Error::ClockTooSlow) } else { Ok(()) }),
{
    if pclk1_hz < MIN_PCLK1_HZ {
        Err(Smt160Error::ClockTooSlow)
    } else {
        Ok(())
    }
}

/// The frozen clock configuration of an STM32F1.
#[verifier::external_type_specification]
#[verifier::external_body]
pub struct ExClocks(stm32f1xx_hal::rcc::Clocks);

/// The APB1 frequency in Hz stored in a frozen clock configuration, as
/// `Clocks::pclk1` of stm32f1xx-hal returns it. It is a field of the
/// configuration, fixed when the clocks were frozen.
pub uninterp spec fn pclk1_of(clocks: stm32f1xx_hal::rcc::Clocks) -> u32;

/// Calls `Clocks::pclk1` of stm32f1xx-hal, which returns the stored APB1
/// rate, and converts it to Hz with fugit's `to_Hz`; the result is the
/// configuration's APB1 frequency, named `pclk1_of`.
#[verifier::external_body]
fn pclk1_hz(clocks: &stm32f1xx_hal::rcc::Clocks) -> (r: u32)
    ensures
        r == pclk1_of(*clocks),
{
    clocks.pclk1().to_Hz()
}

/// Checks that the APB1 clock of a frozen STM32F1 clock configuration is
/// at least 8 MHz: the verdict of [`validate_pclk1_hz`] on the configured
/// APB1 frequency.
pub fn validate_clocks(clocks: &stm32f1xx_hal::rcc::Clocks) -> (r: Result<(), Smt160Error>)
    ensures
        r == (if pclk1_of(*clocks) < MIN_PCLK1_HZ { Err(Smt160Error::ClockTooSlow) } else { Ok(()) }),
{
    let hz = pclk1_hz(clocks);
    validate_pclk1_hz(hz)
}

/// Checks that the peripheral clock (in MHz) is at least 8 MHz.
pub fn check_pclk_mhz(pclk_mhz: u32) -> (r: Result<(), Smt160Error>)
    ensures
        r == (if pclk_mhz < 8 { Err(Smt160Error::InvalidConfiguration) } else { Ok(()) }),
{
    if pclk_mhz < 8 {
        Err(Smt160Error::InvalidConfiguration)
    } else {
        Ok(())
    }
}

/// The 16-bit prescaler dividing the 72 MHz timer clock down to `freq`:
/// `72 MHz / freq - 1` (0 when the quotient is 0), truncated to 16 bits.
pub fn prescaler_for(freq: u32) -> (r: u16)
    requires
        freq > 0,
    ensures
        r == (if STM32F1_TIMER_CLOCK_HZ / freq >= 1 { STM32F1_TIMER_CLOCK_HZ / freq - 1 } else { 0 }) % 0x1_0000,
{
    let q = (STM32F1_TIMER_CLOCK_HZ / freq).saturating_sub(1);
    (q % 0x1_0000) as u16
}

/// Index of the latest complete two-word capture in a circular DMA buffer
/// of `buffer_len` words, from the DMA's remaining-transfer counter (its
/// low 16 bits): the last completed pair, or the last pair of the buffer
/// when none is complete in this lap.
pub fn latest_edge_index(buffer_len: u16, cndtr: u32) -> (r: u16)
    requires
        cndtr % 0x1_0000 <= buffer_len,
    ensures
        ({
            let written = buffer_len - cndtr % 0x1_0000;
            r == if written / 2 == 0 {
                if buffer_len / 2 >= 1 { buffer_len / 2 - 1 } else { 0 }
            } else {
                written / 2 - 1
            }
        }),
{
    let remaining = (cndtr % 0x1_0000) as u16;
    let elements_written = buffer_len - remaining;
    let full_edges_written = elements_written / 2;
    if full_edges_written == 0 {
        (buffer_len / 2).saturating_sub(1)
    } else {
        full_edges_written.saturating_sub(1)
    }
}

/// A DMA capture buffer of `N` words holding `(period, high)` word pairs.
pub struct Smt160DmaBuffer<const N: usize> {
    pub raw: [u32; N],
}

impl<const N: usize> Smt160DmaBuffer<N> {
    /// A zero-filled buffer.
    pub fn new() -> (r: Smt160DmaBuffer<N>)
        ensures
            forall|i: int| 0 <= i < N ==> r.raw@[i] == 0,
    {
        Smt160DmaBuffer { raw: vstd::array::array_fill_for_copy_types(0u32) }
    }

    /// The cycle captured in pair `index`: the low 16 bits of its period
    /// and high-time words.
    pub fn get_edge(&self, index: usize) -> (r: CapturedEdge)
        requires
            2 * index + 1 < N,
        ensures
            r.period_ticks == self.raw@[2 * index] % 0x1_0000,
            r.high_ticks == self.raw@[2 * index + 1] % 0x1_0000,
    {
        let period_val = self.raw[index * 2];
        let high_val = self.raw[index * 2 + 1];
        CapturedEdge { period_ticks: (period_val % 0x1_0000) as u64, high_ticks: (high_val % 0x1_0000) as u64 }
    }
}

/// The cycle in a PIO capture word `(period << 16) | high`, or an empty
/// cycle when the FIFO was empty.
pub fn edge_from_pio_word(word: Option<u32>) -> (r: CapturedEdge)
    ensures
        r == (match word {
            Some(v) => CapturedEdge { period_ticks: (v / 0x1_0000) as u64, high_ticks: (v % 0x1_0000) as u64 },
            None => CapturedEdge { period_ticks: 0, high_ticks: 0 },
        }),
{
    match word {
        Some(v) => CapturedEdge { period_ticks: (v / 0x1_0000) as u64, high_ticks: (v % 0x1_0000) as u64 },
        None => CapturedEdge { period_ticks: 0, high_ticks: 0 },
    }
}

/// A 16-bit capture period extended by the timer overflows counted since
/// the cycle started: `raw + overflows * 2^16`.
pub fn stitch_period(period_raw: u32, overflows: u32) -> (r: u64)
    ensures
        r == period_raw + overflows * 0x1_0000,
{
    period_raw as u64 + (overflows as u64) * 0x1_0000
}

/// A virtual timestamp from an overflow count and a counter value:
/// `(high << 16) | low`.
pub fn combine_timestamp(high: u32, low: u32) -> (r: u64)
    ensures
        r == ((high as u64) << 16u64) | (low as u64),
        low < 0x1_0000 ==> r == high * 0x1_0000 + low,
{
    let h = (high as u64) << 16u64;
    let r = h | (low as u64);
    proof {
        let hh = high as u64;
        let ll = low as u64;
        assert(hh < 0x1_0000_0000);
        assert(ll < 0x1_0000 ==> (hh << 16u64) | ll == hh * 0x1_0000 + ll) by (bit_vector)
            requires hh < 0x1_0000_0000;
    }
    r
}

} // verus!
