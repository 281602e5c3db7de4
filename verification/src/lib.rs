//! A decompression dive planner.
//!
//! The library simulates inert-gas loading of sixteen tissue compartments
//! (a Bühlmann-style model with gradient factors), derives the ascent
//! profile with its mandatory decompression stops, and accounts for the
//! breathing gas consumed.  All physiology is computed in exact integer
//! fixed-point arithmetic: pressures are held in nanobar, so every update
//! is a deterministic integer recurrence that the contracts state exactly.

pub mod units;
pub mod gas;
pub mod tables;
pub mod tissue;
pub mod segment;
pub mod ceiling;
pub mod consumption;
pub mod planner;

use vstd::prelude::*;

verus! {

/// Everything that can go wrong while validating a planning request or
/// running the ascent search.
#[derive(Clone, Copy, Debug, PartialEq, Eq, Structural)]
pub enum PlanError {
    /// Gas fractions do not describe a physical mixture.
    InvalidComposition,
    /// A requested segment has a non-positive depth or duration,
    /// or inconsistent start/end depths for its kind.
    InvalidSegment,
    /// The maximum operating depth of a gas with no oxygen is undefined.
    DegenerateGas,
    /// A planning request with no bottom segments.
    NoBottomSegments,
    /// The ascent search exceeded its iteration bound without surfacing.
    UnreachableCeiling,
}

} // verus!
