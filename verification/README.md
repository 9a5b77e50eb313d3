# smt160_driver

A driver for the SMT160 PWM temperature sensor whose signal-processing core
is verified with Verus: the functions in `src/` are proved free of panics
and overflow, most carry an exact `ensures` contract, and the properties
that span functions are stated and proved as public proof functions
(`lemma_*`). The exceptions are the shared telemetry cell
(`i2c_telemetry.rs`), whose value lives in a `std` atomic that other tasks
write and that Verus gives no content to, and `notify_observer`, whose
effect is the application's observer.

## Layout

- `src/` — the verified library
  - `fixed_point.rs`: `Q32` / `Q16` fixed-point values; multiplication,
    division, square root and conversions are computed by the `fixed` crate
    behind small trusted wrappers whose contracts state the exact rounding.
  - `math.rs`: duty cycle, transfer function, non-linearity correction and
    the adaptive EWMA filter (`SignalDecoder`). Decoding rejects a zero
    period, an active time above the period, a duty cycle below 0.320 and
    temperatures outside -45 °C ..= 130 °C.
  - `decoder.rs`: the edge-driven `Smt160Decoder` state machine.
  - `driver.rs`: the typestate driver (`Smt160Driver`): watchdog, jitter and
    noise flags, decoding, calibration, filtering, threshold notifications.
  - `telemetry.rs`: Welford statistics and the jitter histogram.
  - `calibration.rs`, `conversion.rs`: calibrations and their byte record.
  - `capture.rs`, `hal.rs`, `platform.rs`: the decisions of the capture front
    ends (edge tracking, timeouts, overflow stitching, DMA buffer indexing).
  - `status.rs`, `error.rs`, `config.rs`, `types.rs`, `i2c_telemetry.rs`.
- `tests/` — tests on concrete values, run against the real `fixed` crate.
- `app/` — unverified code around the library: register-level adapters for
  STM32F1 and RP2040, flash storage, GPIO front ends, async plumbing, and
  `serde` / `Display` copies of library types.

There is no adapter for the STM32G4 high-resolution timer: the
`stm32g4xx-hal` crate enables cortex-m's single-core `critical-section`
implementation, which conflicts with the `critical-section` implementation
the other dependencies are built with, so it is not a dependency.
