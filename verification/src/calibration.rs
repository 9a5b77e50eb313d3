//! Sensor calibration: linear and piecewise-linear corrections, and the
//! byte record in which a linear calibration is stored.

use vstd::prelude::*;
use crate::error::Smt160Error;
use crate::fixed_point::{Q32, q32_one, fits_i64, mul_bits};
use crate::math::{SignalDecoder, spec_nlc, nlc_fits, tx, ty};
use crate::conversion::{
    le_u32_value, le_u64_value, from_twos_complement, twos_complement,
    u32_to_le, le_to_u32, i64_to_le, le_to_i64,
};

verus! {

/// A calibration applied to raw temperature readings.
pub trait Calibration {
    /// The calibrated value of `temp` (raw bits) can be computed without overflow.
    spec fn calibrate_fits(&self, temp: int) -> bool;

    /// The calibrated value of `temp`, raw bits.
    spec fn spec_calibrate(&self, temp: int) -> int;

    /// Applies the calibration to a temperature reading.
    fn calibrate(&self, temp: Q32) -> (r: Q32)
        requires
            self.calibrate_fits(temp.bits as int),
        ensures
            r.bits == self.spec_calibrate(temp.bits as int),
    ;
}

/// A linear calibration `temp * slope + offset`.
#[derive(Debug, Clone, Copy, PartialEq, Eq, Structural)]
pub struct LinearCalibration {
    pub slope: Q32,
    pub offset: Q32,
}

impl Default for LinearCalibration {
    /// The identity calibration: slope 1, offset 0.
    fn default() -> (r: LinearCalibration)
        ensures
            r.slope.bits == q32_one(),
            r.offset.bits == 0,
    {
        LinearCalibration { slope: Q32::from_int(1), offset: Q32::from_int(0) }
    }
}

impl Calibration for LinearCalibration {
    open spec fn calibrate_fits(&self, temp: int) -> bool {
        &&& fits_i64(mul_bits(temp, self.slope.bits as int))
        &&& fits_i64(mul_bits(temp, self.slope.bits as int) + self.offset.bits)
    }

    open spec fn spec_calibrate(&self, temp: int) -> int {
        mul_bits(temp, self.slope.bits as int) + self.offset.bits
    }

    fn calibrate(&self, temp: Q32) -> (r: Q32) {
        temp.mul(self.slope).add(self.offset)
    }
}

impl LinearCalibration {
    /// The calibrated value `temp * slope + offset`, or `None` when it (or
    /// the product) is not representable.
    pub fn checked_calibrate(&self, temp: Q32) -> (r: Option<Q32>)
        ensures
            r == (if self.calibrate_fits(temp.bits as int) {
                Some(Q32 { bits: self.spec_calibrate(temp.bits as int) as i64 })
            } else {
                None
            }),
    {
        match temp.checked_mul(self.slope) {
            Some(p) => p.checked_add(self.offset),
            None => None,
        }
    }
}

/// A piecewise-linear calibration through up to five `(raw, corrected)` points.
#[derive(Debug, Clone, Copy)]
pub struct PiecewiseLinearCalibration {
    pub points: [(Q32, Q32); 5],
    /// Number of points in use.
    pub count: usize,
}

impl Default for PiecewiseLinearCalibration {
    /// No points: the identity calibration.
    fn default() -> (r: PiecewiseLinearCalibration)
        ensures
            r.count == 0,
            forall|i: int| 0 <= i < 5 ==> r.points@[i].0.bits == 0 && r.points@[i].1.bits == 0,
    {
        let zero = (Q32::from_int(0), Q32::from_int(0));
        PiecewiseLinearCalibration { points: [zero, zero, zero, zero, zero], count: 0 }
    }
}

impl Calibration for PiecewiseLinearCalibration {
    /// With one point the calibration is the offset `y0 - x0`; with more,
    /// interpolation between the points in use, clamped outside them.
    open spec fn calibrate_fits(&self, temp: int) -> bool {
        &&& self.count <= 5
        &&& self.count == 1 ==> fits_i64(temp + ty(self.points@, 0))
            && fits_i64(temp + ty(self.points@, 0) - tx(self.points@, 0))
        &&& self.count >= 2 ==> nlc_fits(temp, self.points@.take(self.count as int))
    }

    open spec fn spec_calibrate(&self, temp: int) -> int {
        if self.count == 1 {
            temp + ty(self.points@, 0) - tx(self.points@, 0)
        } else {
            spec_nlc(temp, self.points@.take(self.count as int))
        }
    }

    fn calibrate(&self, temp: Q32) -> (r: Q32) {
        if self.count == 0 {
            assert(self.points@.take(0) =~= Seq::<(Q32, Q32)>::empty());
            return temp;
        }
        if self.count == 1 {
            return temp.add(self.points[0].1).sub(self.points[0].0);
        }
        SignalDecoder::interpolate(temp, &self.points, self.count)
    }
}

/// Marker of a stored calibration record ("SMT1").
pub const CALIB_MAGIC: u32 = 0x534D5431;
/// Version of the stored calibration record.
pub const CALIB_VERSION: u16 = 1;

/// The bytes of a stored linear calibration: magic at offset 0, version at
/// offset 4, slope bits at offset 8 and offset bits at offset 16, all
/// little-endian.
#[derive(Debug, Clone, Copy, PartialEq, Eq)]
pub struct CalibrationRecord {
    pub magic: [u8; 4],
    pub version: [u8; 2],
    pub slope: [u8; 8],
    pub offset: [u8; 8],
}

/// Encodes a linear calibration as a stored record.
pub fn encode_calibration(cal: &LinearCalibration) -> (r: CalibrationRecord)
    ensures
        le_u32_value(r.magic@) == CALIB_MAGIC,
        r.version@[0] == 1 && r.version@[1] == 0,
        le_u64_value(r.slope@) == twos_complement(cal.slope.bits as int, 0x1_0000_0000_0000_0000),
        le_u64_value(r.offset@) == twos_complement(cal.offset.bits as int, 0x1_0000_0000_0000_0000),
{
    CalibrationRecord {
        magic: u32_to_le(CALIB_MAGIC),
        version: [1u8, 0u8],
        slope: i64_to_le(cal.slope.bits),
        offset: i64_to_le(cal.offset.bits),
    }
}

/// Checks the magic bytes of a stored record; a wrong marker is reported
/// as `InvalidSignal`.
pub fn check_calibration_magic(magic: [u8; 4]) -> (r: Result<(), Smt160Error>)
    ensures
        r is Ok <==> le_u32_value(magic@) == CALIB_MAGIC,
        r matches Err(e) ==> e == Smt160Error::InvalidSignal,
{
    if le_to_u32(magic) != CALIB_MAGIC {
        Err(Smt160Error::InvalidSignal)
    } else {
        Ok(())
    }
}

/// The linear calibration whose slope and offset bits are stored in `slope`
/// and `offset`.
pub fn decode_calibration(slope: [u8; 8], offset: [u8; 8]) -> (r: LinearCalibration)
    ensures
        r.slope.bits == from_twos_complement(le_u64_value(slope@), 0x1_0000_0000_0000_0000),
        r.offset.bits == from_twos_complement(le_u64_value(offset@), 0x1_0000_0000_0000_0000),
{
    LinearCalibration { slope: Q32::from_bits(le_to_i64(slope)), offset: Q32::from_bits(le_to_i64(offset)) }
}

/// Storing a linear calibration and loading the stored slope and offset
/// bytes gives the same calibration back.
pub proof fn lemma_calibration_record_roundtrip(cal: LinearCalibration, slope: Seq<u8>, offset: Seq<u8>)
    requires
        le_u64_value(slope) == twos_complement(cal.slope.bits as int, 0x1_0000_0000_0000_0000),
        le_u64_value(offset) == twos_complement(cal.offset.bits as int, 0x1_0000_0000_0000_0000),
    ensures
        from_twos_complement(le_u64_value(slope), 0x1_0000_0000_0000_0000) == cal.slope.bits,
        from_twos_complement(le_u64_value(offset), 0x1_0000_0000_0000_0000) == cal.offset.bits,
{
    crate::conversion::lemma_twos_complement_64(cal.slope.bits as int, 0);
    crate::conversion::lemma_twos_complement_64(cal.offset.bits as int, 0);
}

/// The default linear calibration leaves every reading unchanged.
pub proof fn lemma_default_calibration_is_identity(cal: LinearCalibration, temp: int)
    requires
        cal.slope.bits == q32_one(),
        cal.offset.bits == 0,
        fits_i64(temp),
    ensures
        cal.calibrate_fits(temp),
        cal.spec_calibrate(temp) == temp,
{
    assert(mul_bits(temp, q32_one()) == temp);
}

} // verus!
