//! Data model for messages arriving from the host.
//!
//! On the wire each load value is a 32-bit IEEE-754 float in `[0, 1]`.  The
//! firmware core works in fixed point instead: a load is a `u32` counting
//! units of 1/10000, so `LOAD_SCALE` units stand for a load of 1.0.  The
//! conversion from raw float bits to load units is defined here as plain
//! integer arithmetic on the bit pattern.

use vstd::arithmetic::power2::pow2;
use vstd::prelude::*;

verus! {

/// Load units standing for a load of 1.0.
pub const LOAD_SCALE: u32 = 10000;

/// One performance snapshot in fixed point, as the display tasks consume it.
///
/// Values are displayed as received: no range invariant is enforced here.
#[derive(Clone, Copy, Debug, PartialEq, Eq, Structural)]
pub struct PerfData {
    /// Aggregate load of all CPU cores, in load units.
    pub all_cores_load: u32,
    /// All-cores load averaged over the last minute, in load units.
    pub all_cores_avg: u32,
    /// Load of the busiest core, in load units.
    pub peak_core_load: u32,
    /// Memory load, in load units.
    pub memory_load: u32,
    /// Daytime or nighttime display mode.
    pub daytime: bool,
}

/// One performance snapshot as it stands on the wire: each load is the raw
/// bit pattern of a 32-bit IEEE-754 float.
#[derive(Clone, Copy, Debug, PartialEq, Eq, Structural)]
pub struct PerfBits {
    pub all_cores_load: u32,
    pub all_cores_avg: u32,
    pub peak_core_load: u32,
    pub memory_load: u32,
    pub daytime: bool,
}

/// A message from the host.  Only `ShowPerf` drives the animation and the
/// watchdog; `ClearScreen` is accepted and otherwise inert.
#[derive(Clone, Copy, Debug, PartialEq, Eq, Structural)]
pub enum FromHost {
    ClearScreen,
    ShowPerf(PerfBits),
}

/// The load, in units of `1/LOAD_SCALE`, that a 32-bit IEEE-754 bit pattern
/// stands for, rounded down.  Negative values and NaN count as no load;
/// positive infinity and values too large for `u32` saturate.
pub open spec fn load_of_bits(bits: u32) -> u32 {
    let sign = bits >> 31;
    let exponent = (bits >> 23) & 0xff;
    let mantissa = bits & 0x7f_ffff;
    if sign == 1 {
        0
    } else if exponent == 0xff {
        if mantissa == 0 {
            u32::MAX
        } else {
            0
        }
    } else if exponent == 0 {
        // Subnormal: value is mantissa * 2^-149, far below one load unit.
        0
    } else if exponent >= 150 {
        // Value is at least 2^23, far above u32::MAX load units.
        u32::MAX
    } else {
        // Value is (2^23 + mantissa) * 2^(exponent - 150).
        let scaled = ((0x80_0000 + mantissa) as nat * LOAD_SCALE as nat)
            / pow2((150 - exponent) as nat);
        if scaled > u32::MAX {
            u32::MAX
        } else {
            scaled as u32
        }
    }
}

/// Converts one raw IEEE-754 bit pattern into load units.
pub fn load_from_bits(bits: u32) -> (r: u32)
    ensures
        r == load_of_bits(bits),
{
    let sign = bits >> 31;
    let exponent = (bits >> 23) & 0xff;
    let mantissa = bits & 0x7f_ffff;
    if sign == 1 {
        0
    } else if exponent == 0xff {
        if mantissa == 0 {
            u32::MAX
        } else {
            0
        }
    } else if exponent == 0 {
        0
    } else if exponent >= 150 {
        u32::MAX
    } else {
        proof {
            assert(bits & 0x7f_ffff < 0x80_0000) by (bit_vector);
            assert((0x80_0000 + mantissa as int) * (LOAD_SCALE as int) <= 0xff_ffff * 10000)
                by (nonlinear_arith)
                requires
                    mantissa < 0x80_0000,
            ;
        }
        let num: u64 = (0x80_0000u64 + mantissa as u64) * (LOAD_SCALE as u64);
        let shift: u32 = 150 - exponent;
        let scaled: u64 = if shift >= 64 {
            proof {
                vstd::arithmetic::power2::lemma2_to64_rest();
                vstd::arithmetic::power2::lemma_pow2_strictly_increases(38, shift as nat);
                assert(num < pow2(38));
                vstd::arithmetic::div_mod::lemma_basic_div(num as int, pow2(shift as nat) as int);
            }
            0
        } else {
            proof {
                vstd::bits::lemma_u64_shr_is_div(num, shift as u64);
            }
            num >> (shift as u64)
        };
        if scaled > u32::MAX as u64 {
            u32::MAX
        } else {
            scaled as u32
        }
    }
}

/// Converts a wire snapshot into the fixed-point snapshot the display
/// tasks consume.
pub fn perf_from_bits(b: &PerfBits) -> (r: PerfData)
    ensures
        r == perf_of_bits(*b),
{
    PerfData {
        all_cores_load: load_from_bits(b.all_cores_load),
        all_cores_avg: load_from_bits(b.all_cores_avg),
        peak_core_load: load_from_bits(b.peak_core_load),
        memory_load: load_from_bits(b.memory_load),
        daytime: b.daytime,
    }
}

/// The fixed-point snapshot a wire snapshot stands for.
pub open spec fn perf_of_bits(b: PerfBits) -> PerfData {
    PerfData {
        all_cores_load: load_of_bits(b.all_cores_load),
        all_cores_avg: load_of_bits(b.all_cores_avg),
        peak_core_load: load_of_bits(b.peak_core_load),
        memory_load: load_of_bits(b.memory_load),
        daytime: b.daytime,
    }
}

} // verus!
