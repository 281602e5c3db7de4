//! Depth and pressure conversions.
//!
//! Pressures are integers in nanobar (1 bar == 1_000_000_000 nanobar).
//! Depths are integers in metres of salt water.  One metre of salt water
//! adds 102_360_000 nanobar of ambient pressure (density 1023.6 kg/m^3).

use vstd::prelude::*;

verus! {

/// Ambient pressure at the surface, in nanobar.
pub const SURFACE_PRESSURE_NANOBAR: u64 = 1_000_000_000;

/// Ambient pressure added per metre of salt water, in nanobar.
pub const NANOBAR_PER_METRE: u64 = 102_360_000;

/// Pressure of water vapour in the lungs, in nanobar.  Inspired inert-gas
/// pressure is taken from ambient pressure less this constant.
pub const WATER_VAPOUR_NANOBAR: u64 = 62_570_000;

/// Deepest depth, in metres, that the planner accepts.  Keeps every
/// pressure below `MAX_PRESSURE_NANOBAR`, so all arithmetic fits in u64.
pub const MAX_DEPTH_METRES: u32 = 1000;

/// Ambient pressure at `MAX_DEPTH_METRES`, in nanobar.
pub const MAX_PRESSURE_NANOBAR: u64 = 103_360_000_000;

/// Ambient pressure at a depth, in nanobar.
pub open spec fn spec_depth_pressure(depth_m: int) -> int {
    SURFACE_PRESSURE_NANOBAR + depth_m * NANOBAR_PER_METRE
}

/// Inspired pressure of one inert gas at a depth: ambient pressure less
/// water vapour, scaled by the gas's percentage of the mixture.
pub open spec fn spec_inspired_pressure(depth_m: int, pct: int) -> int {
    (spec_depth_pressure(depth_m) - WATER_VAPOUR_NANOBAR) * pct / 100
}

pub fn depth_pressure(depth_m: u32) -> (p: u64)
    requires
        depth_m <= MAX_DEPTH_METRES,
    ensures
        p == spec_depth_pressure(depth_m as int),
        SURFACE_PRESSURE_NANOBAR <= p <= MAX_PRESSURE_NANOBAR,
{
    SURFACE_PRESSURE_NANOBAR + (depth_m as u64) * NANOBAR_PER_METRE
}

pub fn inspired_pressure(depth_m: u32, pct: u8) -> (p: u64)
    requires
        depth_m <= MAX_DEPTH_METRES,
        pct <= 100,
    ensures
        p == spec_inspired_pressure(depth_m as int, pct as int),
        p <= MAX_PRESSURE_NANOBAR,
{
    let ambient = depth_pressure(depth_m);
    let lung = ambient - WATER_VAPOUR_NANOBAR;
    proof {
        assert(lung * pct <= lung * 100) by (nonlinear_arith)
            requires pct <= 100, lung >= 0;
        assert(lung * 100 / 100 == lung);
    }
    (lung * (pct as u64)) / 100
}

} // verus!
