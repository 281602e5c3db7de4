//! Gas consumption accounting.
//!
//! The volume breathed over a segment is ambient pressure (in bar) times
//! duration (in minutes) times the surface air consumption rate (litres
//! per minute at one bar).  In integer form, millilitres:
//! `sac * (pressure_nanobar * seconds / 60_000_000)`, with the mean of
//! the start and end pressures for a transit — the exact integral of the
//! linear pressure ramp.  The rate is applied after the division, so the
//! result is exactly linear in the configured rate.

use vstd::prelude::*;
use vstd::pervasive::VecAdditionalExecFns;
use crate::gas::Gas;
use crate::segment::{Segment, SegmentKind};
use crate::units::{MAX_PRESSURE_NANOBAR, depth_pressure, spec_depth_pressure};
use crate::tissue::MAX_SEGMENT_SECONDS;

verus! {

/// One leg of a finished plan: the segment and the gas breathed over it.
#[derive(Clone, Copy, Debug, PartialEq, Eq, Structural)]
pub struct PlanEntry {
    pub segment: Segment,
    pub gas: Gas,
}

/// Pressure against which gas is drawn over a segment: the end-depth
/// pressure at constant depth, the mean pressure over a transit.
pub open spec fn spec_mean_pressure(seg: Segment) -> int {
    if seg.kind is Transit {
        (spec_depth_pressure(seg.start_m as int) + spec_depth_pressure(seg.end_m as int)) / 2
    } else {
        spec_depth_pressure(seg.end_m as int)
    }
}

/// Millilitres breathed over a segment per unit of surface consumption
/// rate (one litre per minute at one bar).
pub open spec fn spec_unit_volume_ml(seg: Segment) -> int {
    spec_mean_pressure(seg) * seg.dur_s / 60_000_000
}

/// Millilitres breathed over a segment at surface consumption rate `sac`.
pub open spec fn spec_segment_volume_ml(seg: Segment, sac: int) -> int {
    sac * spec_unit_volume_ml(seg)
}

/// The surface consumption rate in force over a segment: stops draw at
/// the decompression rate, bottom legs and transits at the bottom rate.
pub open spec fn spec_sac_for(seg: Segment, sac_bottom: int, sac_deco: int) -> int {
    if seg.kind is Stop {
        sac_deco
    } else {
        sac_bottom
    }
}

/// Millilitres breathed over a whole sequence of plan entries: the sum of
/// the per-segment volumes, each at its phase's rate.
pub open spec fn spec_plan_volume(entries: Seq<PlanEntry>, sac_bottom: int, sac_deco: int) -> int
    decreases entries.len(),
{
    if entries.len() == 0 {
        0
    } else {
        spec_plan_volume(entries.drop_last(), sac_bottom, sac_deco) + spec_segment_volume_ml(
            entries.last().segment,
            spec_sac_for(entries.last().segment, sac_bottom, sac_deco),
        )
    }
}

/// Millilitres breathed from one particular gas over a plan.
pub open spec fn spec_gas_volume(
    entries: Seq<PlanEntry>,
    gas: Gas,
    sac_bottom: int,
    sac_deco: int,
) -> int
    decreases entries.len(),
{
    if entries.len() == 0 {
        0
    } else {
        spec_gas_volume(entries.drop_last(), gas, sac_bottom, sac_deco) + if entries.last().gas
            == gas {
            spec_segment_volume_ml(
                entries.last().segment,
                spec_sac_for(entries.last().segment, sac_bottom, sac_deco),
            )
        } else {
            0
        }
    }
}

/// Consumption is strictly additive: the volume of a plan made of two
/// parts is the sum of the volumes of the parts, as a whole and per gas.
pub proof fn lemma_volume_additive(
    es1: Seq<PlanEntry>,
    es2: Seq<PlanEntry>,
    gas: Gas,
    sac_bottom: int,
    sac_deco: int,
)
    ensures
        spec_plan_volume(es1 + es2, sac_bottom, sac_deco) == spec_plan_volume(
            es1,
            sac_bottom,
            sac_deco,
        ) + spec_plan_volume(es2, sac_bottom, sac_deco),
        spec_gas_volume(es1 + es2, gas, sac_bottom, sac_deco) == spec_gas_volume(
            es1,
            gas,
            sac_bottom,
            sac_deco,
        ) + spec_gas_volume(es2, gas, sac_bottom, sac_deco),
    decreases es2.len(),
{
    if es2.len() == 0 {
        assert(es1 + es2 =~= es1);
    } else {
        lemma_volume_additive(es1, es2.drop_last(), gas, sac_bottom, sac_deco);
        assert((es1 + es2).drop_last() =~= es1 + es2.drop_last());
        assert((es1 + es2).last() == es2.last());
    }
}

/// Consumption scales exactly linearly with the configured surface
/// consumption rate, per segment and hence over any plan.
pub proof fn lemma_volume_linear_in_sac(seg: Segment, sac: int, k: int)
    ensures
        spec_segment_volume_ml(seg, k * sac) == k * spec_segment_volume_ml(seg, sac),
{
    let u = spec_unit_volume_ml(seg);
    assert((k * sac) * u == k * (sac * u)) by (nonlinear_arith);
}

/// Mean pressure over a segment, in executable form.
pub fn mean_pressure(seg: &Segment) -> (r: u64)
    requires
        seg.wf(),
    ensures
        r == spec_mean_pressure(*seg),
        r <= MAX_PRESSURE_NANOBAR,
{
    match seg.kind {
        SegmentKind::Transit => {
            let p1 = depth_pressure(seg.start_m);
            let p2 = depth_pressure(seg.end_m);
            (p1 + p2) / 2
        },
        _ => depth_pressure(seg.end_m),
    }
}

/// Millilitres breathed over one segment at rate `sac` litres per minute.
pub fn segment_volume_ml(seg: &Segment, sac: u32) -> (r: u64)
    requires
        seg.wf(),
    ensures
        r == spec_segment_volume_ml(*seg, sac as int),
        r <= 5_000_000_000_000_000_000,
{
    let p = mean_pressure(seg);
    proof {
        assert((p as int) * (seg.dur_s as int) <= 103_360_000_000int * 604_800int)
            by (nonlinear_arith)
            requires 0 <= p <= 103_360_000_000, 0 <= seg.dur_s <= 604_800;
        assert((p as int) * (seg.dur_s as int) >= 0) by (nonlinear_arith)
            requires p >= 0, seg.dur_s >= 0;
        vstd::arithmetic::div_mod::lemma_div_pos_is_pos(
            (p as int) * (seg.dur_s as int),
            60_000_000int,
        );
        vstd::arithmetic::div_mod::lemma_div_is_ordered(
            (p as int) * (seg.dur_s as int),
            62_512_128_000_000_000int,
            60_000_000int,
        );
    }
    let unit = (p * (seg.dur_s as u64)) / 60_000_000;
    proof {
        assert((sac as int) * (unit as int) <= 4_294_967_295int * 1_041_868_800int)
            by (nonlinear_arith)
            requires 0 <= sac <= 4_294_967_295u64, 0 <= unit <= 1_041_868_800,
        ;
        assert((sac as int) * (unit as int) >= 0) by (nonlinear_arith)
            requires sac >= 0, unit >= 0;
    }
    (sac as u64) * unit
}

} // verus!
