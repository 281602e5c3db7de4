//! The dive planner: drives the tissue model through the requested bottom
//! legs, then derives the ascent — decompression stops, gas switches and
//! the final ascent — and accounts for the gas consumed.
//!
//! Policies: stop depths are multiples of three metres, rounded toward
//! the deeper stop; a stop is lengthened in whole minutes until the
//! ceiling permits the next shallower stop; zero-minute stops are
//! omitted from the plan; a gas selected for an ascent leg takes effect
//! at the leg's target depth, so the transit itself still records the
//! gas previously in force.

use vstd::prelude::*;
use vstd::pervasive::VecAdditionalExecFns;
use crate::PlanError;
use crate::ceiling::{TOLERATED_PRESSURE_BOUND, gf_at, spec_ceiling, spec_gf_at};
use crate::consumption::{
    PlanEntry, segment_volume_ml, spec_gas_volume, spec_plan_volume, spec_sac_for,
    spec_segment_volume_ml,
};
use crate::gas::{Gas, MAX_PPO2_DECO_NANOBAR, spec_mod_depth};
use crate::segment::{Segment, SegmentKind, spec_n2_after, spec_he_after, spec_transit_seconds, transit_seconds};
use crate::tables::{COMPARTMENT_COUNT, Variant};
use crate::tissue::{SURFACE_N2_NANOBAR, TissueState};
use crate::units::{MAX_DEPTH_METRES, NANOBAR_PER_METRE, SURFACE_PRESSURE_NANOBAR};

verus! {

/// Most bottom legs a request may hold.
pub const MAX_BOTTOM_LEGS: usize = 64;

/// Longest single bottom leg, in minutes (one week).
pub const MAX_LEG_MINUTES: u32 = 10_080;

/// Iteration budget of the ascent loop: when this many rounds of
/// ceiling queries and stops have not reached the surface, the model is
/// inconsistent and the planner fails rather than loop on.
pub const ASCENT_FUEL: u32 = 2_000;

/// Conservatism bounds: the ceiling is shrunk by `low` percent at the
/// first stop depth, easing linearly to `high` percent at the surface.
#[derive(Clone, Copy, Debug, PartialEq, Eq, Structural)]
pub struct GradientFactor {
    pub low: u8,
    pub high: u8,
}

impl GradientFactor {
    pub open spec fn wf(self) -> bool {
        self.low <= self.high <= 100
    }

    /// The default of 100/100 adds no conservatism.
    pub fn unmodified() -> (r: GradientFactor)
        ensures
            r == (GradientFactor { low: 100u8, high: 100u8 }),
            r.wf(),
    {
        GradientFactor { low: 100, high: 100 }
    }

    pub fn new(low: u8, high: u8) -> (r: GradientFactor)
        requires
            low <= high <= 100,
        ensures
            r == (GradientFactor { low, high }),
            r.wf(),
    {
        GradientFactor { low, high }
    }
}

/// One requested constant-depth working leg.
#[derive(Clone, Copy, Debug, PartialEq, Eq, Structural)]
pub struct BottomLeg {
    pub depth_m: u32,
    pub minutes: u32,
    pub gas: Gas,
}

/// One decompression gas on offer, with an optional explicit
/// maximum-operating-depth override.
#[derive(Clone, Copy, Debug, PartialEq, Eq, Structural)]
pub struct DecoGas {
    pub gas: Gas,
    pub mod_override_m: Option<u32>,
}

impl DecoGas {
    /// Usable: a valid mixture whose maximum operating depth is defined,
    /// either overridden or computable from a positive oxygen fraction.
    pub open spec fn usable(self) -> bool {
        self.gas.valid() && (self.mod_override_m is Some || self.gas.spec_o2() > 0)
    }
}

/// The deepest depth at which a decompression gas may be breathed: its
/// override if one was given, else the depth at which its oxygen partial
/// pressure reaches the decompression limit.
pub open spec fn spec_effective_mod(dg: DecoGas) -> int {
    match dg.mod_override_m {
        Some(m) => m as int,
        None => spec_mod_depth(dg.gas.spec_o2(), MAX_PPO2_DECO_NANOBAR as int),
    }
}

/// Effective maximum operating depth, in executable form.
pub fn effective_mod(dg: &DecoGas) -> (r: u32)
    requires
        dg.usable(),
    ensures
        r == spec_effective_mod(*dg),
{
    match dg.mod_override_m {
        Some(m) => m,
        None => {
            let r = dg.gas.maximum_operating_depth(MAX_PPO2_DECO_NANOBAR);
            match r {
                Ok(d) => d,
                Err(_) => 0,  // unreachable: usable() rules out an undefined depth
            }
        },
    }
}

/// All planning parameters.
#[derive(Clone, Copy, Debug, PartialEq, Eq, Structural)]
pub struct Settings {
    pub gf: GradientFactor,
    /// Ascent rate, metres per minute (magnitude).
    pub ascent_rate: u32,
    /// Descent rate, metres per minute (magnitude).
    pub descent_rate: u32,
    /// Surface air consumption on bottom legs and transits, litres per
    /// minute at one bar.
    pub sac_bottom: u32,
    /// Surface air consumption on decompression stops.
    pub sac_deco: u32,
    pub variant: Variant,
}

impl Settings {
    pub open spec fn wf(self) -> bool {
        &&& self.gf.wf()
        &&& 1 <= self.ascent_rate
        &&& 1 <= self.descent_rate
    }
}

/// The stop depth demanded by a ceiling pressure: the next multiple of
/// three metres at or below the unrounded ceiling depth; zero at or
/// above the surface.
pub open spec fn spec_stop_depth(c: int) -> int {
    if c <= SURFACE_PRESSURE_NANOBAR {
        0
    } else {
        3 * ((c - SURFACE_PRESSURE_NANOBAR + (3 * NANOBAR_PER_METRE - 1)) / (3
            * NANOBAR_PER_METRE as int))
    }
}

/// Stop rounding in executable form.
pub fn stop_depth_for(c: u64) -> (r: u32)
    requires
        c <= TOLERATED_PRESSURE_BOUND,
    ensures
        r == spec_stop_depth(c as int),
        r == 0 <==> c <= SURFACE_PRESSURE_NANOBAR,
        r % 3 == 0,
        r <= 300_000,
{
    if c <= SURFACE_PRESSURE_NANOBAR {
        0
    } else {
        let q = (c - SURFACE_PRESSURE_NANOBAR + 307_079_999) / 307_080_000;
        proof {
            vstd::arithmetic::div_mod::lemma_div_pos_is_pos(
                (c - SURFACE_PRESSURE_NANOBAR + 307_079_999) as int,
                307_080_000int,
            );
            vstd::arithmetic::div_mod::lemma_div_is_ordered(
                307_080_000int,
                (c - SURFACE_PRESSURE_NANOBAR + 307_079_999) as int,
                307_080_000int,
            );
            vstd::arithmetic::div_mod::lemma_div_is_ordered(
                (c - SURFACE_PRESSURE_NANOBAR + 307_079_999) as int,
                30_000_307_079_999int,
                307_080_000int,
            );
        }
        3 * (q as u32)
    }
}

/// The gas selected for an ascent leg beginning at `depth_m`: the richest
/// usable gas (highest oxygen fraction, earliest on ties) whose effective
/// maximum operating depth is at or beyond that depth; none when no gas
/// qualifies.
pub open spec fn spec_best_gas_idx(dgs: Seq<DecoGas>, depth_m: int, n: nat) -> int
    decreases n,
{
    if n == 0 {
        -1
    } else {
        let prev = spec_best_gas_idx(dgs, depth_m, (n - 1) as nat);
        if spec_effective_mod(dgs[n - 1]) < depth_m {
            prev
        } else if prev == -1 {
            n - 1
        } else if dgs[n - 1].gas.spec_o2() > dgs[prev].gas.spec_o2() {
            n - 1
        } else {
            prev
        }
    }
}

/// Gas selection in executable form.  Returns the index of the chosen
/// gas, or nothing when no gas in the inventory may be breathed at
/// `depth_m`.
pub fn best_gas(dgs: &Vec<DecoGas>, depth_m: u32) -> (r: Option<usize>)
    requires
        forall|j: int| 0 <= j < dgs@.len() ==> #[trigger] dgs@[j].usable(),
    ensures
        match r {
            Some(k) => k < dgs@.len() && k as int == spec_best_gas_idx(
                dgs@,
                depth_m as int,
                dgs@.len(),
            ) && spec_effective_mod(dgs@[k as int]) >= depth_m,
            None => spec_best_gas_idx(dgs@, depth_m as int, dgs@.len()) == -1,
        },
{
    let mut best: Option<usize> = None;
    let mut j: usize = 0;
    while j < dgs.len()
        invariant
            j <= dgs@.len(),
            forall|k: int| 0 <= k < dgs@.len() ==> #[trigger] dgs@[k].usable(),
            match best {
                Some(k) => k < j && k as int == spec_best_gas_idx(dgs@, depth_m as int, j as nat)
                    && spec_effective_mod(dgs@[k as int]) >= depth_m,
                None => spec_best_gas_idx(dgs@, depth_m as int, j as nat) == -1,
            },
        decreases dgs@.len() - j,
    {
        let m = effective_mod(&dgs[j]);
        if m >= depth_m {
            match best {
                Some(k) => {
                    if dgs[j].gas.o2_pct() > dgs[k].gas.o2_pct() {
                        best = Some(j);
                    }
                },
                None => {
                    best = Some(j);
                },
            }
        }
        j = j + 1;
    }
    best
}

/// The distinct gases of a plan in order of first appearance: the key
/// column of the per-gas totals.
pub open spec fn spec_gas_list(entries: Seq<PlanEntry>) -> Seq<Gas>
    decreases entries.len(),
{
    if entries.len() == 0 {
        Seq::empty()
    } else {
        let rest = spec_gas_list(entries.drop_last());
        if rest.contains(entries.last().gas) {
            rest
        } else {
            rest.push(entries.last().gas)
        }
    }
}

/// The key column of a per-gas totals table.
pub open spec fn spec_totals_gases(ts: Seq<(Gas, u128)>) -> Seq<Gas> {
    ts.map_values(|t: (Gas, u128)| t.0)
}

/// Sum of the recorded per-gas totals.
pub open spec fn spec_totals_sum(ts: Seq<(Gas, u128)>) -> int
    decreases ts.len(),
{
    if ts.len() == 0 {
        0
    } else {
        spec_totals_sum(ts.drop_last()) + ts.last().1
    }
}

proof fn lemma_totals_sum_update(ts: Seq<(Gas, u128)>, k: int, nv: (Gas, u128))
    requires
        0 <= k < ts.len(),
    ensures
        spec_totals_sum(ts.update(k, nv)) == spec_totals_sum(ts) - ts[k].1 + nv.1,
    decreases ts.len(),
{
    if k == ts.len() - 1 {
        assert(ts.update(k, nv).drop_last() =~= ts.drop_last());
        assert(ts.update(k, nv).last() == nv);
    } else {
        lemma_totals_sum_update(ts.drop_last(), k, nv);
        assert(ts.update(k, nv).drop_last() =~= ts.drop_last().update(k, nv));
        assert(ts.update(k, nv).last() == ts.last());
    }
}

/// Aggregate a plan's entries into per-gas totals and a grand total, in
/// millilitres: stops are costed at the decompression rate, bottom legs
/// and transits at the bottom rate.  The grand total is exactly the sum
/// of the per-gas totals, each gas appears once, and every gas breathed
/// in the plan appears.
pub fn gas_totals(entries: &Vec<PlanEntry>, sac_bottom: u32, sac_deco: u32) -> (r: (
    Vec<(Gas, u128)>,
    u128,
))
    requires
        forall|i: int| 0 <= i < entries@.len() ==> #[trigger] entries@[i].segment.wf(),
        entries@.len() <= 1_000_000,
    ensures
        r.1 == spec_plan_volume(entries@, sac_bottom as int, sac_deco as int),
        spec_totals_sum(r.0@) == r.1,
        spec_totals_gases(r.0@) == spec_gas_list(entries@),
        forall|k: int| 0 <= k < r.0@.len() ==> #[trigger] r.0@[k].1 == spec_gas_volume(
            entries@,
            r.0@[k].0,
            sac_bottom as int,
            sac_deco as int,
        ),
        forall|k1: int, k2: int| 0 <= k1 < k2 < r.0@.len() ==> r.0@[k1].0 != r.0@[k2].0,
        forall|i: int|
            0 <= i < entries@.len() ==> exists|k: int|
                0 <= k < r.0@.len() && #[trigger] r.0@[k].0 == #[trigger] entries@[i].gas,
{
    let mut totals: Vec<(Gas, u128)> = Vec::new();
    let mut total: u128 = 0;
    let mut i: usize = 0;
    while i < entries.len()
        invariant
            i <= entries@.len(),
            entries@.len() <= 1_000_000,
            forall|j: int| 0 <= j < entries@.len() ==> #[trigger] entries@[j].segment.wf(),
            total == spec_plan_volume(
                entries@.subrange(0, i as int),
                sac_bottom as int,
                sac_deco as int,
            ),
            total <= (i as int) * 5_000_000_000_000_000_000,
            spec_totals_sum(totals@) == total,
            forall|k: int| 0 <= k < totals@.len() ==> #[trigger] totals@[k].1 == spec_gas_volume(
                entries@.subrange(0, i as int),
                totals@[k].0,
                sac_bottom as int,
                sac_deco as int,
            ),
            forall|k: int| 0 <= k < totals@.len() ==> #[trigger] totals@[k].1 <= total,
            spec_totals_gases(totals@) == spec_gas_list(entries@.subrange(0, i as int)),
            forall|k1: int, k2: int| 0 <= k1 < k2 < totals@.len() ==> totals@[k1].0 != totals@[
                k2
            ].0,
            forall|g: Gas|
                (forall|k: int| 0 <= k < totals@.len() ==> #[trigger] totals@[k].0 != g)
                    ==> #[trigger] spec_gas_volume(
                    entries@.subrange(0, i as int),
                    g,
                    sac_bottom as int,
                    sac_deco as int,
                ) == 0,
            forall|j: int|
                0 <= j < i ==> exists|k: int|
                    0 <= k < totals@.len() && #[trigger] totals@[k].0
                        == #[trigger] entries@[j].gas,
        decreases entries@.len() - i,
    {
        let e = entries[i];
        let sac = match e.segment.kind {
            SegmentKind::Stop => sac_deco,
            _ => sac_bottom,
        };
        let vol = segment_volume_ml(&e.segment, sac);
        proof {
            assert(entries@.subrange(0, i + 1).drop_last() =~= entries@.subrange(0, i as int));
            assert(entries@.subrange(0, i + 1).last() == entries@[i as int]);
            assert(vol == spec_segment_volume_ml(
                e.segment,
                spec_sac_for(e.segment, sac_bottom as int, sac_deco as int),
            ));
        }
        // find this gas among the totals gathered so far
        let mut found: Option<usize> = None;
        let mut k: usize = 0;
        while k < totals.len()
            invariant
                k <= totals@.len(),
                match found {
                    Some(f) => f < totals@.len() && totals@[f as int].0 == e.gas,
                    None => forall|k2: int| 0 <= k2 < k ==> totals@[k2].0 != e.gas,
                },
            decreases totals@.len() - k,
        {
            if found.is_none() && totals[k].0 == e.gas {
                found = Some(k);
            }
            k = k + 1;
        }
        proof {
            assert forall|g: Gas| #[trigger] spec_gas_volume(
                entries@.subrange(0, i + 1),
                g,
                sac_bottom as int,
                sac_deco as int,
            ) == spec_gas_volume(
                entries@.subrange(0, i as int),
                g,
                sac_bottom as int,
                sac_deco as int,
            ) + (if e.gas == g {
                vol as int
            } else {
                0
            }) by {
                assert(entries@.subrange(0, i + 1).drop_last() =~= entries@.subrange(0, i as int));
            }
        }
        let ghost old_totals = totals@;
        match found {
            Some(f) => {
                let old_pair = totals[f];
                proof {
                    lemma_totals_sum_update(
                        totals@,
                        f as int,
                        (e.gas, ((old_pair.1 + (vol as u128)) as u128)),
                    );
                }
                totals.set(f, (e.gas, old_pair.1 + (vol as u128)));
                proof {
                    assert forall|k: int| 0 <= k < totals@.len() implies #[trigger] totals@[k].1
                        == spec_gas_volume(
                        entries@.subrange(0, i + 1),
                        totals@[k].0,
                        sac_bottom as int,
                        sac_deco as int,
                    ) by {
                        if k != f as int {
                            assert(old_totals[k].0 != old_totals[f as int].0);
                            assert(totals@[k] == old_totals[k]);
                        }
                    }
                    assert(spec_totals_gases(old_totals)[f as int] == e.gas);
                    assert(spec_gas_list(entries@.subrange(0, i as int)).contains(e.gas));
                    assert(spec_gas_list(entries@.subrange(0, i + 1)) == spec_gas_list(
                        entries@.subrange(0, i as int),
                    ));
                    assert(spec_totals_gases(totals@) =~= spec_totals_gases(old_totals));
                }
            },
            None => {
                proof {
                    assert(totals@.push((e.gas, vol as u128)).drop_last() =~= totals@);
                    assert(spec_gas_volume(
                        entries@.subrange(0, i as int),
                        e.gas,
                        sac_bottom as int,
                        sac_deco as int,
                    ) == 0);
                }
                totals.push((e.gas, vol as u128));
                proof {
                    assert forall|k: int| 0 <= k < totals@.len() implies #[trigger] totals@[k].1
                        == spec_gas_volume(
                        entries@.subrange(0, i + 1),
                        totals@[k].0,
                        sac_bottom as int,
                        sac_deco as int,
                    ) by {
                        if k < totals@.len() - 1 {
                            assert(totals@[k] == old_totals[k]);
                            assert(old_totals[k].0 != e.gas);
                        } else {
                            assert(totals@[k] == (e.gas, vol as u128));
                        }
                    }
                    let glist = spec_gas_list(entries@.subrange(0, i as int));
                    assert forall|j: int| 0 <= j < glist.len() implies glist[j] != e.gas by {
                        assert(glist[j] == spec_totals_gases(old_totals)[j]);
                        assert(old_totals[j].0 != e.gas);
                    }
                    assert(!glist.contains(e.gas));
                    assert(spec_gas_list(entries@.subrange(0, i + 1)) == glist.push(e.gas));
                    assert(spec_totals_gases(totals@) =~= spec_totals_gases(old_totals).push(
                        e.gas,
                    ));
                }
            },
        }
        proof {
            assert forall|g: Gas|
                (forall|k: int| 0 <= k < totals@.len() ==> #[trigger] totals@[k].0 != g)
                    implies #[trigger] spec_gas_volume(
                    entries@.subrange(0, i + 1),
                    g,
                    sac_bottom as int,
                    sac_deco as int,
                ) == 0 by {
                assert forall|k: int| 0 <= k < old_totals.len() implies #[trigger] old_totals[k].0
                    != g by {
                    match found {
                        Some(f) => {
                            assert(totals@[k].0 == old_totals[k].0);
                        },
                        None => {
                            assert(totals@[k].0 == old_totals[k].0);
                        },
                    }
                }
                assert(g != e.gas) by {
                    match found {
                        Some(f) => {
                            assert(totals@[f as int].0 == e.gas);
                        },
                        None => {
                            assert(totals@[totals@.len() - 1].0 == e.gas);
                        },
                    }
                }
            }
        }
        proof {
            assert forall|j: int| 0 <= j < i + 1 implies exists|k: int|
                0 <= k < totals@.len() && #[trigger] totals@[k].0 == #[trigger] entries@[j].gas by {
                if j < i {
                    let k = choose|k: int|
                        0 <= k < old_totals.len() && #[trigger] old_totals[k].0 == entries@[j].gas;
                    assert(totals@[k].0 == old_totals[k].0);
                    assert(0 <= k < totals@.len() && totals@[k].0 == entries@[j].gas);
                } else {
                    match found {
                        Some(f) => {
                            assert(totals@[f as int].0 == e.gas);
                        },
                        None => {
                            assert(totals@[totals@.len() - 1].0 == e.gas);
                        },
                    }
                }
            }
        }
        total = total + (vol as u128);
        i = i + 1;
    }
    proof {
        assert(entries@.subrange(0, entries@.len() as int) =~= entries@);
    }
    let ghost gathered = totals@;
    let result = (totals, total);
    proof {
        assert(result.0@ == gathered);
        assert forall|i: int| 0 <= i < entries@.len() implies exists|k: int|
            0 <= k < result.0@.len() && #[trigger] result.0@[k].0
                == #[trigger] entries@[i].gas by {
            let k0 = choose|k: int|
                0 <= k < gathered.len() && #[trigger] gathered[k].0 == entries@[i].gas;
            assert(0 <= k0 < result.0@.len() && result.0@[k0].0 == entries@[i].gas);
        }
    }
    result
}

/// The nitrogen loading of a diver fresh from the surface, as a model
/// vector.
pub open spec fn spec_initial_n2() -> Seq<int> {
    Seq::new(COMPARTMENT_COUNT as nat, |i: int| SURFACE_N2_NANOBAR as int)
}

/// The helium loading of a diver fresh from the surface: none.
pub open spec fn spec_initial_he() -> Seq<int> {
    Seq::new(COMPARTMENT_COUNT as nat, |i: int| 0int)
}

/// The nitrogen channels after exposing a state to a whole sequence of
/// plan entries, in order.
pub open spec fn spec_trace_n2(n2: Seq<int>, entries: Seq<PlanEntry>, v: Variant) -> Seq<int>
    decreases entries.len(),
{
    if entries.len() == 0 {
        n2
    } else {
        spec_n2_after(
            spec_trace_n2(n2, entries.drop_last(), v),
            entries.last().segment,
            entries.last().gas,
            v,
        )
    }
}

/// The helium channels after exposing a state to a whole sequence of
/// plan entries, in order.
pub open spec fn spec_trace_he(he: Seq<int>, entries: Seq<PlanEntry>, v: Variant) -> Seq<int>
    decreases entries.len(),
{
    if entries.len() == 0 {
        he
    } else {
        spec_he_after(
            spec_trace_he(he, entries.drop_last(), v),
            entries.last().segment,
            entries.last().gas,
            v,
        )
    }
}

/// The gas of a plan entry is accounted for: it is one of the requested
/// bottom gases, or a decompression gas breathed only at or above its
/// maximum operating depth.
pub open spec fn spec_gas_ok(e: PlanEntry, legs: Seq<BottomLeg>, dgs: Seq<DecoGas>) -> bool {
    (exists|j: int| 0 <= j < legs.len() && (#[trigger] legs[j]).gas == e.gas) || (exists|j: int|
        0 <= j < dgs.len() && (#[trigger] dgs[j]).gas == e.gas && spec_effective_mod(dgs[j])
            >= e.segment.start_m && spec_effective_mod(dgs[j]) >= e.segment.end_m)
}

/// A gas that may be breathed at `depth_m` and below during the ascent.
pub open spec fn spec_gas_ok_at(gas: Gas, depth_m: int, legs: Seq<BottomLeg>, dgs: Seq<DecoGas>) -> bool {
    (exists|j: int| 0 <= j < legs.len() && (#[trigger] legs[j]).gas == gas) || (exists|j: int|
        0 <= j < dgs.len() && (#[trigger] dgs[j]).gas == gas && spec_effective_mod(dgs[j])
            >= depth_m)
}

/// The constant-depth entries of a plan: its bottom legs, in order.
pub open spec fn spec_bottom_entries(es: Seq<PlanEntry>) -> Seq<PlanEntry> {
    es.filter(|e: PlanEntry| e.segment.kind is Bottom)
}

/// The plan entry a requested bottom leg turns into.
pub open spec fn spec_leg_entry(leg: BottomLeg) -> PlanEntry {
    PlanEntry {
        segment: Segment {
            kind: SegmentKind::Bottom,
            start_m: leg.depth_m,
            end_m: leg.depth_m,
            dur_s: (leg.minutes * 60) as u32,
        },
        gas: leg.gas,
    }
}

/// The plan entries all requested bottom legs turn into.
pub open spec fn spec_leg_entries(legs: Seq<BottomLeg>) -> Seq<PlanEntry> {
    legs.map_values(|l: BottomLeg| spec_leg_entry(l))
}

proof fn lemma_bottom_entries_push(es: Seq<PlanEntry>, e: PlanEntry)
    ensures
        (e.segment.kind is Bottom) ==> spec_bottom_entries(es.push(e)) =~= spec_bottom_entries(
            es,
        ).push(e),
        !(e.segment.kind is Bottom) ==> spec_bottom_entries(es.push(e)) =~= spec_bottom_entries(
            es,
        ),
{
    reveal(Seq::filter);
    assert(es.push(e).drop_last() =~= es);
    assert(es.push(e).last() == e);
}

/// The segment a stop of `m` whole minutes at `stop_d` metres becomes.
pub open spec fn spec_stop_segment(stop_d: u32, m: u32) -> Segment {
    Segment { kind: SegmentKind::Stop, start_m: stop_d, end_m: stop_d, dur_s: (m * 60) as u32 }
}

/// Every decompression stop of a plan is long enough: immediately after
/// it, the ceiling under the gradient factor then in force permits the
/// next shallower stop (it rounds strictly above the stop's own depth).
pub open spec fn spec_stops_adequate(
    es: Seq<PlanEntry>,
    low: int,
    high: int,
    fs: int,
    v: Variant,
) -> bool {
    forall|i: int|
        0 <= i < es.len() && (#[trigger] es[i]).segment.kind is Stop ==> spec_stop_depth(
            spec_ceiling(
                spec_trace_n2(spec_initial_n2(), es.subrange(0, i + 1), v),
                spec_trace_he(spec_initial_he(), es.subrange(0, i + 1), v),
                v,
                spec_gf_at(low, high, es[i].segment.end_m as int, fs),
            ),
        ) < es[i].segment.end_m
}

/// Every decompression stop of a plan was demanded: on arrival at its
/// depth the ceiling, under the gradient factor then in force, still
/// rounded to that depth or deeper — no stop is emitted that the ceiling
/// never asked for.
pub open spec fn spec_stops_demanded(
    es: Seq<PlanEntry>,
    low: int,
    high: int,
    fs: int,
    v: Variant,
) -> bool {
    forall|i: int|
        0 <= i < es.len() && (#[trigger] es[i]).segment.kind is Stop ==> spec_stop_depth(
            spec_ceiling(
                spec_trace_n2(spec_initial_n2(), es.subrange(0, i), v),
                spec_trace_he(spec_initial_he(), es.subrange(0, i), v),
                v,
                spec_gf_at(low, high, es[i].segment.end_m as int, fs),
            ),
        ) >= es[i].segment.end_m
}

proof fn lemma_stops_demanded_push(
    pre: Seq<PlanEntry>,
    e: PlanEntry,
    low: int,
    high: int,
    fs: int,
    v: Variant,
)
    requires
        spec_stops_demanded(pre, low, high, fs, v),
        e.segment.kind is Stop ==> spec_stop_depth(
            spec_ceiling(
                spec_trace_n2(spec_initial_n2(), pre, v),
                spec_trace_he(spec_initial_he(), pre, v),
                v,
                spec_gf_at(low, high, e.segment.end_m as int, fs),
            ),
        ) >= e.segment.end_m,
    ensures
        spec_stops_demanded(pre.push(e), low, high, fs, v),
{
    let es = pre.push(e);
    assert forall|i: int|
        0 <= i < es.len() && (#[trigger] es[i]).segment.kind is Stop implies spec_stop_depth(
        spec_ceiling(
            spec_trace_n2(spec_initial_n2(), es.subrange(0, i), v),
            spec_trace_he(spec_initial_he(), es.subrange(0, i), v),
            v,
            spec_gf_at(low, high, es[i].segment.end_m as int, fs),
        ),
    ) >= es[i].segment.end_m by {
        if i < pre.len() {
            assert(es.subrange(0, i) =~= pre.subrange(0, i));
            assert(es[i] == pre[i]);
        } else {
            assert(es.subrange(0, i) =~= pre);
            assert(es[i] == e);
        }
    }
}

proof fn lemma_stops_adequate_push(
    pre: Seq<PlanEntry>,
    e: PlanEntry,
    low: int,
    high: int,
    fs: int,
    v: Variant,
)
    requires
        spec_stops_adequate(pre, low, high, fs, v),
        e.segment.kind is Stop ==> spec_stop_depth(
            spec_ceiling(
                spec_trace_n2(spec_initial_n2(), pre.push(e), v),
                spec_trace_he(spec_initial_he(), pre.push(e), v),
                v,
                spec_gf_at(low, high, e.segment.end_m as int, fs),
            ),
        ) < e.segment.end_m,
    ensures
        spec_stops_adequate(pre.push(e), low, high, fs, v),
{
    let es = pre.push(e);
    assert forall|i: int|
        0 <= i < es.len() && (#[trigger] es[i]).segment.kind is Stop implies spec_stop_depth(
        spec_ceiling(
            spec_trace_n2(spec_initial_n2(), es.subrange(0, i + 1), v),
            spec_trace_he(spec_initial_he(), es.subrange(0, i + 1), v),
            v,
            spec_gf_at(low, high, es[i].segment.end_m as int, fs),
        ),
    ) < es[i].segment.end_m by {
        if i < pre.len() {
            assert(es.subrange(0, i + 1) =~= pre.subrange(0, i + 1));
            assert(es[i] == pre[i]);
        } else {
            assert(es.subrange(0, i + 1) =~= es);
            assert(es[i] == e);
        }
    }
}

/// A finished plan: the ordered legs with the gas breathed over each, the
/// per-gas totals and grand total in millilitres, the tissue state at the
/// end of the dive, and the first stop depth the gradient-factor
/// interpolation anchored to (zero when the ceiling never demanded one).
#[derive(Debug)]
pub struct DivePlan {
    pub entries: Vec<PlanEntry>,
    pub gas_totals: Vec<(Gas, u128)>,
    pub total_ml: u128,
    pub tissue: TissueState,
    pub first_stop_m: u32,
}

/// The stop-length search as a mathematical function: the least number of
/// whole minutes `m`, starting from `m0`, for which the ceiling after `m`
/// minutes at `stop_d` rounds strictly shallower than `stop_d`; nothing
/// if no count up to `MAX_LEG_MINUTES` suffices.
pub open spec fn spec_stop_search(
    n2: Seq<int>,
    he: Seq<int>,
    stop_d: u32,
    first_stop: u32,
    s: Settings,
    gas: Gas,
    m0: u32,
) -> Option<u32>
    decreases MAX_LEG_MINUTES - m0,
{
    let g = spec_gf_at(s.gf.low as int, s.gf.high as int, stop_d as int, first_stop as int);
    let c = spec_ceiling(
        spec_n2_after(n2, spec_stop_segment(stop_d, m0), gas, s.variant),
        spec_he_after(he, spec_stop_segment(stop_d, m0), gas, s.variant),
        s.variant,
        g,
    );
    if spec_stop_depth(c) < stop_d {
        Some(m0)
    } else if m0 >= MAX_LEG_MINUTES {
        None
    } else {
        spec_stop_search(n2, he, stop_d, first_stop, s, gas, (m0 + 1) as u32)
    }
}

/// Minutes a stop at `stop_d` must last before the ceiling permits the
/// next shallower stop, found by what-if exposure of a scratch copy;
/// nothing if no whole number of minutes up to the bound suffices.
fn stop_minutes_needed(
    tissue: &TissueState,
    stop_d: u32,
    first_stop: u32,
    settings: &Settings,
    gas: Gas,
) -> (r: Option<u32>)
    requires
        tissue.wf(),
        gas.valid(),
        stop_d <= MAX_DEPTH_METRES,
        settings.wf(),
    ensures
        r == spec_stop_search(
            tissue.n2_model(),
            tissue.he_model(),
            stop_d,
            first_stop,
            *settings,
            gas,
            0,
        ),
        r is Some && r->Some_0 > 0 ==> spec_stop_depth(
            spec_ceiling(
                tissue.n2_model(),
                tissue.he_model(),
                settings.variant,
                spec_gf_at(
                    settings.gf.low as int,
                    settings.gf.high as int,
                    stop_d as int,
                    first_stop as int,
                ),
            ),
        ) >= stop_d,
        r is Some ==> r->Some_0 <= MAX_LEG_MINUTES,
        r is Some ==> spec_stop_depth(
            spec_ceiling(
                spec_n2_after(
                    tissue.n2_model(),
                    spec_stop_segment(stop_d, r->Some_0),
                    gas,
                    settings.variant,
                ),
                spec_he_after(
                    tissue.he_model(),
                    spec_stop_segment(stop_d, r->Some_0),
                    gas,
                    settings.variant,
                ),
                settings.variant,
                spec_gf_at(
                    settings.gf.low as int,
                    settings.gf.high as int,
                    stop_d as int,
                    first_stop as int,
                ),
            ),
        ) < stop_d,
{
    let mut scratch = tissue.snapshot();
    proof {
        assert(scratch.n2_model() =~= spec_n2_after(
            tissue.n2_model(),
            spec_stop_segment(stop_d, 0),
            gas,
            settings.variant,
        ));
        assert(scratch.he_model() =~= spec_he_after(
            tissue.he_model(),
            spec_stop_segment(stop_d, 0),
            gas,
            settings.variant,
        ));
    }
    let mut m: u32 = 0;
    loop
        invariant
            tissue.wf(),
            scratch.wf(),
            gas.valid(),
            stop_d <= MAX_DEPTH_METRES,
            settings.wf(),
            m <= MAX_LEG_MINUTES,
            scratch.n2_model() == spec_n2_after(
                tissue.n2_model(),
                spec_stop_segment(stop_d, m),
                gas,
                settings.variant,
            ),
            scratch.he_model() == spec_he_after(
                tissue.he_model(),
                spec_stop_segment(stop_d, m),
                gas,
                settings.variant,
            ),
            spec_stop_search(
                tissue.n2_model(),
                tissue.he_model(),
                stop_d,
                first_stop,
                *settings,
                gas,
                m,
            ) == spec_stop_search(
                tissue.n2_model(),
                tissue.he_model(),
                stop_d,
                first_stop,
                *settings,
                gas,
                0,
            ),
            m > 0 ==> spec_stop_depth(
                spec_ceiling(
                    tissue.n2_model(),
                    tissue.he_model(),
                    settings.variant,
                    spec_gf_at(
                        settings.gf.low as int,
                        settings.gf.high as int,
                        stop_d as int,
                        first_stop as int,
                    ),
                ),
            ) >= stop_d,
        decreases MAX_LEG_MINUTES - m,
    {
        let g = gf_at(settings.gf.low, settings.gf.high, stop_d, first_stop);
        let c = scratch.ceiling_pressure(settings.variant, g);
        let s2 = stop_depth_for(c);
        if s2 < stop_d {
            return Some(m);
        }
        proof {
            if m == 0 {
                assert(spec_n2_after(
                    tissue.n2_model(),
                    spec_stop_segment(stop_d, 0),
                    gas,
                    settings.variant,
                ) =~= tissue.n2_model());
                assert(spec_he_after(
                    tissue.he_model(),
                    spec_stop_segment(stop_d, 0),
                    gas,
                    settings.variant,
                ) =~= tissue.he_model());
            }
        }
        if m == MAX_LEG_MINUTES {
            return None;
        }
        let ghost pre_n2 = scratch.n2_model();
        let ghost pre_he = scratch.he_model();
        scratch.expose_constant(stop_d, 60, gas, settings.variant);
        proof {
            lemma_stop_minute_extends(
                tissue.n2_model(),
                tissue.he_model(),
                pre_n2,
                pre_he,
                scratch.n2_model(),
                scratch.he_model(),
                stop_d,
                m,
                gas,
                settings.variant,
            );
        }
        m = m + 1;
    }
}

/// One more simulated minute at a stop composes with the minutes already
/// simulated: stepping the state of `m` stop minutes by sixty seconds
/// gives the state of `m + 1` stop minutes.
proof fn lemma_stop_minute_extends(
    base_n2: Seq<int>,
    base_he: Seq<int>,
    pre_n2: Seq<int>,
    pre_he: Seq<int>,
    post_n2: Seq<int>,
    post_he: Seq<int>,
    stop_d: u32,
    m: u32,
    gas: Gas,
    v: Variant,
)
    requires
        m < MAX_LEG_MINUTES,
        pre_n2 == spec_n2_after(base_n2, spec_stop_segment(stop_d, m), gas, v),
        pre_he == spec_he_after(base_he, spec_stop_segment(stop_d, m), gas, v),
        forall|i: int|
            0 <= i < pre_n2.len() ==> #[trigger] post_n2[i] == crate::tissue::spec_run_const(
                pre_n2[i],
                crate::units::spec_inspired_pressure(stop_d as int, gas.spec_n2()),
                crate::tables::spec_n2_rate(v, i) as int,
                60,
            ),
        forall|i: int|
            0 <= i < pre_he.len() ==> #[trigger] post_he[i] == crate::tissue::spec_run_const(
                pre_he[i],
                crate::units::spec_inspired_pressure(stop_d as int, gas.spec_he()),
                crate::tables::spec_he_rate(v, i) as int,
                60,
            ),
        post_n2.len() == pre_n2.len(),
        post_he.len() == pre_he.len(),
    ensures
        post_n2 =~= spec_n2_after(base_n2, spec_stop_segment(stop_d, (m + 1) as u32), gas, v),
        post_he =~= spec_he_after(base_he, spec_stop_segment(stop_d, (m + 1) as u32), gas, v),
{
    let n2_target = crate::units::spec_inspired_pressure(stop_d as int, gas.spec_n2());
    let he_target = crate::units::spec_inspired_pressure(stop_d as int, gas.spec_he());
    assert forall|i: int| 0 <= i < post_n2.len() implies #[trigger] post_n2[i] == spec_n2_after(
        base_n2,
        spec_stop_segment(stop_d, (m + 1) as u32),
        gas,
        v,
    )[i] by {
        crate::tissue::lemma_run_const_additive(
            base_n2[i],
            n2_target,
            crate::tables::spec_n2_rate(v, i) as int,
            (m * 60) as nat,
            60,
        );
    }
    assert forall|i: int| 0 <= i < post_he.len() implies #[trigger] post_he[i] == spec_he_after(
        base_he,
        spec_stop_segment(stop_d, (m + 1) as u32),
        gas,
        v,
    )[i] by {
        crate::tissue::lemma_run_const_additive(
            base_he[i],
            he_target,
            crate::tables::spec_he_rate(v, i) as int,
            (m * 60) as nat,
            60,
        );
    }
}

/// Depth-continuity of a plan: each leg starts where the previous ended.
pub open spec fn spec_chain(es: Seq<PlanEntry>) -> bool {
    forall|i: int|
        0 <= i < es.len() - 1 ==> (#[trigger] es[i + 1]).segment.start_m == es[i].segment.end_m
}

/// The duration a transit must have: the depth change at the descent rate
/// going deeper, at the ascent rate going shallower.
pub open spec fn spec_transit_timed(seg: Segment, asc: int, desc: int) -> bool {
    seg.kind is Transit ==> seg.dur_s == if seg.end_m > seg.start_m {
        spec_transit_seconds(seg.end_m - seg.start_m, desc)
    } else {
        spec_transit_seconds(seg.start_m - seg.end_m, asc)
    }
}

/// Per-entry soundness of a plan: every segment well formed, every gas a
/// valid mixture accounted for by the request (a bottom gas, or a
/// decompression gas within its maximum operating depth), every stop a
/// whole positive number of minutes, and every transit timed by the
/// configured rate for its direction.
pub open spec fn spec_entries_ok(
    es: Seq<PlanEntry>,
    legs: Seq<BottomLeg>,
    dgs: Seq<DecoGas>,
    asc: int,
    desc: int,
) -> bool {
    forall|i: int|
        0 <= i < es.len() ==> {
            &&& (#[trigger] es[i]).segment.wf()
            &&& es[i].gas.valid()
            &&& spec_gas_ok(es[i], legs, dgs)
            &&& (es[i].segment.kind is Stop ==> es[i].segment.dur_s >= 60 && es[i].segment.dur_s
                % 60 == 0)
            &&& spec_transit_timed(es[i].segment, asc, desc)
        }
}

proof fn lemma_push_entry(
    pre: Seq<PlanEntry>,
    e: PlanEntry,
    legs: Seq<BottomLeg>,
    dgs: Seq<DecoGas>,
    asc: int,
    desc: int,
)
    requires
        spec_entries_ok(pre, legs, dgs, asc, desc),
        spec_chain(pre),
        e.segment.wf(),
        e.gas.valid(),
        spec_gas_ok(e, legs, dgs),
        e.segment.kind is Stop ==> e.segment.dur_s >= 60 && e.segment.dur_s % 60 == 0,
        spec_transit_timed(e.segment, asc, desc),
        pre.len() > 0 ==> e.segment.start_m == pre.last().segment.end_m,
    ensures
        spec_entries_ok(pre.push(e), legs, dgs, asc, desc),
        spec_chain(pre.push(e)),
{
    let es = pre.push(e);
    assert forall|i: int| 0 <= i < es.len() - 1 implies (#[trigger] es[i + 1]).segment.start_m
        == es[i].segment.end_m by {
        if i < pre.len() - 1 {
            assert(es[i] == pre[i] && es[i + 1] == pre[i + 1]);
        } else {
            assert(es[i] == pre.last() && es[i + 1] == e);
        }
    }
}

proof fn lemma_trace_push(pre: Seq<PlanEntry>, e: PlanEntry, v: Variant)
    ensures
        spec_trace_n2(spec_initial_n2(), pre.push(e), v) == spec_n2_after(
            spec_trace_n2(spec_initial_n2(), pre, v),
            e.segment,
            e.gas,
            v,
        ),
        spec_trace_he(spec_initial_he(), pre.push(e), v) == spec_he_after(
            spec_trace_he(spec_initial_he(), pre, v),
            e.segment,
            e.gas,
            v,
        ),
{
    assert(pre.push(e).drop_last() =~= pre);
}

/// The bottom phase as a mathematical function: starting from channel
/// vectors, entries, a depth and a gas in force, process the requested
/// legs from index `k` on — an implicit transit where the depth changes,
/// then the constant-depth leg itself — and return the final channel
/// vectors, entries, depth and gas in force.
pub open spec fn spec_bottom_phase(
    n2: Seq<int>,
    he: Seq<int>,
    es: Seq<PlanEntry>,
    depth: u32,
    cur_gas: Gas,
    legs: Seq<BottomLeg>,
    k: int,
    s: Settings,
) -> (Seq<int>, Seq<int>, Seq<PlanEntry>, u32, Gas)
    decreases legs.len() - k,
{
    if k < 0 || k >= legs.len() {
        (n2, he, es, depth, cur_gas)
    } else {
        let leg = legs[k];
        let (n2t, het, est, dt) = if leg.depth_m != depth {
            let rate = if leg.depth_m > depth {
                s.descent_rate
            } else {
                s.ascent_rate
            };
            let delta = if leg.depth_m > depth {
                (leg.depth_m - depth) as u32
            } else {
                (depth - leg.depth_m) as u32
            };
            let seg = Segment {
                kind: SegmentKind::Transit,
                start_m: depth,
                end_m: leg.depth_m,
                dur_s: spec_transit_seconds(delta as int, rate as int) as u32,
            };
            let e = PlanEntry { segment: seg, gas: cur_gas };
            (
                spec_n2_after(n2, seg, cur_gas, s.variant),
                spec_he_after(he, seg, cur_gas, s.variant),
                es.push(e),
                leg.depth_m,
            )
        } else {
            (n2, he, es, depth)
        };
        let bseg = Segment {
            kind: SegmentKind::Bottom,
            start_m: dt,
            end_m: dt,
            dur_s: (leg.minutes * 60) as u32,
        };
        let be = PlanEntry { segment: bseg, gas: leg.gas };
        spec_bottom_phase(
            spec_n2_after(n2t, bseg, leg.gas, s.variant),
            spec_he_after(het, bseg, leg.gas, s.variant),
            est.push(be),
            dt,
            leg.gas,
            legs,
            k + 1,
            s,
        )
    }
}

/// The ascent as a mathematical function: from channel vectors, entries,
/// a depth, a gas in force and a first-stop anchor, run the bounded
/// search — ceiling, stop rounding, gas selection, transit, stop length —
/// and return the finished entries and first-stop anchor, or nothing when
/// the iteration budget or a stop search is exhausted.
pub open spec fn spec_ascent(
    n2: Seq<int>,
    he: Seq<int>,
    es: Seq<PlanEntry>,
    depth: u32,
    cur_gas: Gas,
    first_stop: u32,
    fuel: u32,
    dgs: Seq<DecoGas>,
    s: Settings,
) -> Option<(Seq<PlanEntry>, u32)>
    decreases fuel,
{
    if fuel == 0 {
        None
    } else {
        let g = spec_gf_at(s.gf.low as int, s.gf.high as int, depth as int, first_stop as int);
        let c = spec_ceiling(n2, he, s.variant, g);
        let stop = spec_stop_depth(c);
        if stop == 0 {
            let seg = Segment {
                kind: SegmentKind::Transit,
                start_m: depth,
                end_m: 0,
                dur_s: spec_transit_seconds(depth as int, s.ascent_rate as int) as u32,
            };
            Some((es.push(PlanEntry { segment: seg, gas: cur_gas }), first_stop))
        } else {
            let stop_d: u32 = if stop >= depth {
                depth
            } else {
                stop as u32
            };
            let sel = spec_best_gas_idx(dgs, depth as int, dgs.len());
            let next_gas = if sel == -1 {
                cur_gas
            } else {
                dgs[sel].gas
            };
            let (n2t, het, est) = if stop_d < depth {
                let seg = Segment {
                    kind: SegmentKind::Transit,
                    start_m: depth,
                    end_m: stop_d,
                    dur_s: spec_transit_seconds(
                        (depth - stop_d) as int,
                        s.ascent_rate as int,
                    ) as u32,
                };
                (
                    spec_n2_after(n2, seg, cur_gas, s.variant),
                    spec_he_after(he, seg, cur_gas, s.variant),
                    es.push(PlanEntry { segment: seg, gas: cur_gas }),
                )
            } else {
                (n2, he, es)
            };
            let fs = if first_stop == 0 {
                stop_d
            } else {
                first_stop
            };
            match spec_stop_search(n2t, het, stop_d, fs, s, next_gas, 0) {
                None => None,
                Some(m) => if m > 0 {
                    let sseg = spec_stop_segment(stop_d, m);
                    spec_ascent(
                        spec_n2_after(n2t, sseg, next_gas, s.variant),
                        spec_he_after(het, sseg, next_gas, s.variant),
                        est.push(PlanEntry { segment: sseg, gas: next_gas }),
                        stop_d,
                        next_gas,
                        fs,
                        (fuel - 1) as u32,
                        dgs,
                        s,
                    )
                } else {
                    spec_ascent(n2t, het, est, stop_d, next_gas, fs, (fuel - 1) as u32, dgs, s)
                },
            }
        }
    }
}

/// A request that passes validation: at least one leg, every leg with a
/// positive depth and duration, every decompression gas usable.
pub open spec fn spec_request_valid(legs: Seq<BottomLeg>, dgs: Seq<DecoGas>) -> bool {
    &&& legs.len() > 0
    &&& forall|i: int|
        0 <= i < legs.len() ==> (#[trigger] legs[i]).depth_m >= 1 && legs[i].minutes >= 1
    &&& forall|j: int| 0 <= j < dgs.len() ==> (#[trigger] dgs[j]).usable()
}

/// The whole plan as a mathematical function of the request: the entries
/// and first-stop anchor the planner returns on a validated request, or
/// nothing when the ascent search cannot surface.  The planner's result
/// is pinned to this function: planning is deterministic.
pub open spec fn spec_planned_entries(
    legs: Seq<BottomLeg>,
    dgs: Seq<DecoGas>,
    s: Settings,
) -> Option<(Seq<PlanEntry>, u32)> {
    let bp = spec_bottom_phase(
        spec_initial_n2(),
        spec_initial_he(),
        Seq::<PlanEntry>::empty(),
        0,
        legs[0].gas,
        legs,
        0,
        s,
    );
    spec_ascent(bp.0, bp.1, bp.2, bp.3, bp.4, 0, ASCENT_FUEL, dgs, s)
}

/// Compute a full decompression plan.
///
/// The tissue model starts at surface equilibrium, is driven through a
/// synthesized descent and each requested bottom leg, and the ascent is
/// then derived stop by stop until the rounded ceiling reaches the
/// surface.  The outcome is pinned exactly: on a validated request the
/// planner succeeds if and only if `spec_planned_entries` yields a plan,
/// it fails with `UnreachableCeiling` if and only if that bounded search
/// cannot surface, and on success the entry sequence and first-stop
/// anchor equal that function's value — planning is a deterministic
/// function of the request.  On success the plan:
/// - starts at depth zero, ends at depth zero, and is depth-continuous;
/// - carries only well-formed segments, each recording a gas that is a
///   requested bottom gas or a decompression gas breathed within its
///   maximum operating depth;
/// - contains exactly the requested bottom legs as its constant-depth
///   working segments, in order;
/// - reports a final tissue state that is exactly the model's recurrence
///   applied to the plan's segments in order from surface equilibrium;
/// - reports per-gas totals and a grand total that are exactly the
///   per-segment consumption sums, stops costed at the decompression
///   rate and everything else at the bottom rate;
/// - holds every stop until the ceiling, under the gradient factor in
///   force at its depth, permits the next shallower stop; emits a stop
///   only where on arrival the ceiling still demanded one; and generates
///   the final ascent only once the rounded ceiling reaches the surface.
#[verifier::rlimit(80)]
pub fn plan_dive(legs: &Vec<BottomLeg>, deco_gases: &Vec<DecoGas>, settings: &Settings) -> (r:
    Result<DivePlan, PlanError>)
    requires
        settings.wf(),
        legs@.len() <= MAX_BOTTOM_LEGS,
        forall|i: int|
            0 <= i < legs@.len() ==> (#[trigger] legs@[i]).gas.valid() && legs@[i].depth_m
                <= MAX_DEPTH_METRES && legs@[i].minutes <= MAX_LEG_MINUTES,
        forall|j: int| 0 <= j < deco_gases@.len() ==> (#[trigger] deco_gases@[j]).gas.valid(),
    ensures
        r == Err::<DivePlan, PlanError>(PlanError::NoBottomSegments) <==> legs@.len() == 0,
        r == Err::<DivePlan, PlanError>(PlanError::InvalidSegment) <==> (legs@.len() > 0
            && exists|i: int|
            0 <= i < legs@.len() && ((#[trigger] legs@[i]).depth_m == 0 || legs@[i].minutes
                == 0)),
        r == Err::<DivePlan, PlanError>(PlanError::DegenerateGas) <==> (legs@.len() > 0 && (
        forall|i: int|
            0 <= i < legs@.len() ==> (#[trigger] legs@[i]).depth_m >= 1 && legs@[i].minutes >= 1)
            && exists|j: int| 0 <= j < deco_gases@.len() && !(#[trigger] deco_gases@[j]).usable()),
        r is Ok || r == Err::<DivePlan, PlanError>(PlanError::NoBottomSegments) || r == Err::<
            DivePlan,
            PlanError,
        >(PlanError::InvalidSegment) || r == Err::<DivePlan, PlanError>(PlanError::DegenerateGas)
            || r == Err::<DivePlan, PlanError>(PlanError::UnreachableCeiling),
        r == Err::<DivePlan, PlanError>(PlanError::UnreachableCeiling) <==> (spec_request_valid(
            legs@,
            deco_gases@,
        ) && spec_planned_entries(legs@, deco_gases@, *settings) is None),
        r is Ok <==> (spec_request_valid(legs@, deco_gases@) && spec_planned_entries(
            legs@,
            deco_gases@,
            *settings,
        ) is Some),
        r is Ok ==> r->Ok_0.entries@ == spec_planned_entries(
            legs@,
            deco_gases@,
            *settings,
        )->Some_0.0 && r->Ok_0.first_stop_m == spec_planned_entries(
            legs@,
            deco_gases@,
            *settings,
        )->Some_0.1,
        r is Ok ==> {
            let p = r->Ok_0;
            &&& 2 <= p.entries@.len()
            &&& p.entries@[0].segment.start_m == 0
            &&& p.entries@.last().segment.end_m == 0
            &&& spec_chain(p.entries@)
            &&& spec_entries_ok(
                p.entries@,
                legs@,
                deco_gases@,
                settings.ascent_rate as int,
                settings.descent_rate as int,
            )
            &&& spec_bottom_entries(p.entries@) == spec_leg_entries(legs@)
            &&& p.tissue.wf()
            &&& p.tissue.n2_model() == spec_trace_n2(spec_initial_n2(), p.entries@, settings.variant)
            &&& p.tissue.he_model() == spec_trace_he(spec_initial_he(), p.entries@, settings.variant)
            &&& p.total_ml == spec_plan_volume(
                p.entries@,
                settings.sac_bottom as int,
                settings.sac_deco as int,
            )
            &&& spec_totals_sum(p.gas_totals@) == p.total_ml
            &&& spec_totals_gases(p.gas_totals@) == spec_gas_list(p.entries@)
            &&& (forall|k: int|
                0 <= k < p.gas_totals@.len() ==> #[trigger] p.gas_totals@[k].1 == spec_gas_volume(
                    p.entries@,
                    p.gas_totals@[k].0,
                    settings.sac_bottom as int,
                    settings.sac_deco as int,
                ))
            &&& (forall|k1: int, k2: int|
                0 <= k1 < k2 < p.gas_totals@.len() ==> p.gas_totals@[k1].0 != p.gas_totals@[k2].0)
            &&& (forall|i: int|
                0 <= i < p.entries@.len() ==> exists|k: int|
                    0 <= k < p.gas_totals@.len() && #[trigger] p.gas_totals@[k].0
                        == #[trigger] p.entries@[i].gas)
            &&& spec_stops_adequate(
                p.entries@,
                settings.gf.low as int,
                settings.gf.high as int,
                p.first_stop_m as int,
                settings.variant,
            )
            &&& spec_stops_demanded(
                p.entries@,
                settings.gf.low as int,
                settings.gf.high as int,
                p.first_stop_m as int,
                settings.variant,
            )
            &&& spec_stop_depth(
                spec_ceiling(
                    spec_trace_n2(spec_initial_n2(), p.entries@.drop_last(), settings.variant),
                    spec_trace_he(spec_initial_he(), p.entries@.drop_last(), settings.variant),
                    settings.variant,
                    spec_gf_at(
                        settings.gf.low as int,
                        settings.gf.high as int,
                        p.entries@.last().segment.start_m as int,
                        p.first_stop_m as int,
                    ),
                ),
            ) == 0
        },
{
    if legs.len() == 0 {
        return Err(PlanError::NoBottomSegments);
    }
    let mut k: usize = 0;
    while k < legs.len()
        invariant
            k <= legs@.len(),
            legs@.len() >= 1,
            forall|i: int|
                0 <= i < k ==> (#[trigger] legs@[i]).depth_m >= 1 && legs@[i].minutes >= 1,
        decreases legs@.len() - k,
    {
        if legs[k].depth_m == 0 || legs[k].minutes == 0 {
            return Err(PlanError::InvalidSegment);
        }
        k = k + 1;
    }
    let mut k: usize = 0;
    while k < deco_gases.len()
        invariant
            k <= deco_gases@.len(),
            legs@.len() >= 1,
            forall|i: int|
                0 <= i < legs@.len() ==> (#[trigger] legs@[i]).depth_m >= 1 && legs@[i].minutes
                    >= 1,
            forall|j: int| 0 <= j < deco_gases@.len() ==> (#[trigger] deco_gases@[j]).gas.valid(),
            forall|j: int| 0 <= j < k ==> (#[trigger] deco_gases@[j]).usable(),
        decreases deco_gases@.len() - k,
    {
        if deco_gases[k].mod_override_m.is_none() && deco_gases[k].gas.o2_pct() == 0 {
            proof {
                assert(!deco_gases@[k as int].usable());
            }
            return Err(PlanError::DegenerateGas);
        }
        k = k + 1;
    }

    let v = settings.variant;
    let mut tissue = TissueState::surface_equilibrium();
    let mut entries: Vec<PlanEntry> = Vec::new();
    let mut depth: u32 = 0;
    let mut cur_gas: Gas = legs[0].gas;
    proof {
        assert(tissue.n2_model() =~= spec_initial_n2());
        assert(tissue.he_model() =~= spec_initial_he());
        assert(entries@ =~= Seq::<PlanEntry>::empty());
        assert(spec_bottom_entries(entries@) =~= spec_leg_entries(legs@.subrange(0, 0))) by {
            reveal(Seq::filter);
        }
    }

    let mut k: usize = 0;
    while k < legs.len()
        invariant
            k <= legs@.len(),
            1 <= legs@.len() <= MAX_BOTTOM_LEGS,
            settings.wf(),
            v == settings.variant,
            forall|i: int|
                0 <= i < legs@.len() ==> (#[trigger] legs@[i]).gas.valid() && legs@[i].depth_m
                    <= MAX_DEPTH_METRES && legs@[i].minutes <= MAX_LEG_MINUTES && legs@[i].depth_m
                    >= 1 && legs@[i].minutes >= 1,
            forall|j: int| 0 <= j < deco_gases@.len() ==> (#[trigger] deco_gases@[j]).usable(),
            tissue.wf(),
            tissue.n2_model() == spec_trace_n2(spec_initial_n2(), entries@, v),
            tissue.he_model() == spec_trace_he(spec_initial_he(), entries@, v),
            spec_entries_ok(
                entries@,
                legs@,
                deco_gases@,
                settings.ascent_rate as int,
                settings.descent_rate as int,
            ),
            spec_chain(entries@),
            spec_bottom_entries(entries@) == spec_leg_entries(legs@.subrange(0, k as int)),
            forall|i: int|
                0 <= i < entries@.len() ==> !((#[trigger] entries@[i]).segment.kind is Stop),
            entries@.len() <= 2 * k,
            cur_gas.valid(),
            k == 0 ==> entries@.len() == 0 && depth == 0 && cur_gas == legs@[0].gas,
            k >= 1 ==> 2 <= entries@.len() && entries@[0].segment.start_m == 0
                && entries@.last().segment.end_m == depth && depth == legs@[k - 1].depth_m
                && cur_gas == legs@[k - 1].gas && 1 <= depth <= MAX_DEPTH_METRES,
            spec_bottom_phase(
                spec_initial_n2(),
                spec_initial_he(),
                Seq::<PlanEntry>::empty(),
                0,
                legs@[0].gas,
                legs@,
                0,
                *settings,
            ) == spec_bottom_phase(
                tissue.n2_model(),
                tissue.he_model(),
                entries@,
                depth,
                cur_gas,
                legs@,
                k as int,
                *settings,
            ),
        decreases legs@.len() - k,
    {
        let leg = legs[k];
        let ghost bn2 = tissue.n2_model();
        let ghost bhe = tissue.he_model();
        let ghost bes = entries@;
        let ghost bdepth = depth;
        let ghost bgas = cur_gas;
        if leg.depth_m != depth {
            let rate = if leg.depth_m > depth {
                settings.descent_rate
            } else {
                settings.ascent_rate
            };
            let delta = if leg.depth_m > depth {
                leg.depth_m - depth
            } else {
                depth - leg.depth_m
            };
            let t = transit_seconds(delta, rate);
            let seg = Segment {
                kind: SegmentKind::Transit,
                start_m: depth,
                end_m: leg.depth_m,
                dur_s: t,
            };
            let e = PlanEntry { segment: seg, gas: cur_gas };
            let ghost pre = entries@;
            proof {
                if k == 0 {
                    assert(legs@[0].gas == e.gas);
                } else {
                    assert(legs@[k - 1].gas == e.gas);
                }
                assert(spec_gas_ok(e, legs@, deco_gases@));
                lemma_push_entry(
                    pre,
                    e,
                    legs@,
                    deco_gases@,
                    settings.ascent_rate as int,
                    settings.descent_rate as int,
                );
                lemma_trace_push(pre, e, v);
                lemma_bottom_entries_push(pre, e);
            }
            tissue.expose(seg, cur_gas, v);
            entries.push(e);
            proof {
                lemma_no_stop_push(pre, e);
                assert(seg.dur_s == spec_transit_seconds(delta as int, rate as int) as u32);
            }
            depth = leg.depth_m;
        }
        let bseg = Segment {
            kind: SegmentKind::Bottom,
            start_m: depth,
            end_m: depth,
            dur_s: leg.minutes * 60,
        };
        let e = PlanEntry { segment: bseg, gas: leg.gas };
        let ghost pre = entries@;
        proof {
            assert(legs@[k as int].gas == e.gas);
            assert(spec_gas_ok(e, legs@, deco_gases@));
            lemma_push_entry(
                    pre,
                    e,
                    legs@,
                    deco_gases@,
                    settings.ascent_rate as int,
                    settings.descent_rate as int,
                );
            lemma_trace_push(pre, e, v);
            lemma_bottom_entries_push(pre, e);
            assert(e == spec_leg_entry(legs@[k as int]));
            assert(spec_leg_entries(legs@.subrange(0, k + 1)) =~= spec_leg_entries(
                legs@.subrange(0, k as int),
            ).push(spec_leg_entry(legs@[k as int])));
        }
        tissue.expose(bseg, leg.gas, v);
        entries.push(e);
        proof {
            lemma_no_stop_push(pre, e);
            assert(spec_bottom_phase(bn2, bhe, bes, bdepth, bgas, legs@, k as int, *settings)
                == spec_bottom_phase(
                tissue.n2_model(),
                tissue.he_model(),
                entries@,
                depth,
                leg.gas,
                legs@,
                k + 1,
                *settings,
            ));
        }
        cur_gas = leg.gas;
        k = k + 1;
    }
    proof {
        assert(legs@.subrange(0, legs@.len() as int) =~= legs@);
        assert(spec_gas_ok_at(cur_gas, depth as int, legs@, deco_gases@));
        assert(spec_planned_entries(legs@, deco_gases@, *settings) == spec_ascent(
            tissue.n2_model(),
            tissue.he_model(),
            entries@,
            depth,
            cur_gas,
            0,
            ASCENT_FUEL,
            deco_gases@,
            *settings,
        ));
    }

    let mut first_stop: u32 = 0;
    let mut fuel: u32 = ASCENT_FUEL;
    loop
        invariant
            1 <= legs@.len() <= MAX_BOTTOM_LEGS,
            settings.wf(),
            v == settings.variant,
            forall|i: int|
                0 <= i < legs@.len() ==> (#[trigger] legs@[i]).gas.valid() && legs@[i].depth_m
                    <= MAX_DEPTH_METRES && legs@[i].minutes <= MAX_LEG_MINUTES && legs@[i].depth_m
                    >= 1 && legs@[i].minutes >= 1,
            forall|j: int| 0 <= j < deco_gases@.len() ==> (#[trigger] deco_gases@[j]).usable(),
            tissue.wf(),
            tissue.n2_model() == spec_trace_n2(spec_initial_n2(), entries@, v),
            tissue.he_model() == spec_trace_he(spec_initial_he(), entries@, v),
            spec_entries_ok(
                entries@,
                legs@,
                deco_gases@,
                settings.ascent_rate as int,
                settings.descent_rate as int,
            ),
            spec_chain(entries@),
            spec_bottom_entries(entries@) == spec_leg_entries(legs@),
            cur_gas.valid(),
            spec_gas_ok_at(cur_gas, depth as int, legs@, deco_gases@),
            first_stop == 0 ==> (forall|i: int|
                0 <= i < entries@.len() ==> !((#[trigger] entries@[i]).segment.kind is Stop)),
            spec_stops_adequate(
                entries@,
                settings.gf.low as int,
                settings.gf.high as int,
                first_stop as int,
                v,
            ),
            spec_stops_demanded(
                entries@,
                settings.gf.low as int,
                settings.gf.high as int,
                first_stop as int,
                v,
            ),
            2 <= entries@.len(),
            entries@[0].segment.start_m == 0,
            entries@.last().segment.end_m == depth,
            1 <= depth <= MAX_DEPTH_METRES,
            fuel <= ASCENT_FUEL,
            entries@.len() <= 2 * MAX_BOTTOM_LEGS + 2 * (ASCENT_FUEL - fuel),
            spec_ascent(
                tissue.n2_model(),
                tissue.he_model(),
                entries@,
                depth,
                cur_gas,
                first_stop,
                fuel,
                deco_gases@,
                *settings,
            ) == spec_planned_entries(legs@, deco_gases@, *settings),
        decreases fuel,
    {
        let ghost afuel = fuel;
        let ghost an2 = tissue.n2_model();
        let ghost ahe = tissue.he_model();
        let ghost aes = entries@;
        let ghost adepth = depth;
        let ghost agas = cur_gas;
        let ghost afs = first_stop;
        if fuel == 0 {
            proof {
                assert(spec_planned_entries(legs@, deco_gases@, *settings) is None);
            }
            return Err(PlanError::UnreachableCeiling);
        }
        fuel = fuel - 1;
        let g = gf_at(settings.gf.low, settings.gf.high, depth, first_stop);
        let c = tissue.ceiling_pressure(v, g);
        let stop = stop_depth_for(c);
        if stop == 0 {
            let t = transit_seconds(depth, settings.ascent_rate);
            let seg = Segment { kind: SegmentKind::Transit, start_m: depth, end_m: 0, dur_s: t };
            let e = PlanEntry { segment: seg, gas: cur_gas };
            let ghost pre = entries@;
            proof {
                lemma_gas_ok_here(cur_gas, depth as int, seg, legs@, deco_gases@);
                lemma_push_entry(
                    pre,
                    e,
                    legs@,
                    deco_gases@,
                    settings.ascent_rate as int,
                    settings.descent_rate as int,
                );
                lemma_trace_push(pre, e, v);
                lemma_bottom_entries_push(pre, e);
                lemma_stops_adequate_push(
                    pre,
                    e,
                    settings.gf.low as int,
                    settings.gf.high as int,
                    first_stop as int,
                    v,
                );
                lemma_stops_demanded_push(
                    pre,
                    e,
                    settings.gf.low as int,
                    settings.gf.high as int,
                    first_stop as int,
                    v,
                );
            }
            tissue.expose(seg, cur_gas, v);
            entries.push(e);
            proof {
                assert(seg.dur_s == spec_transit_seconds(
                    adepth as int,
                    settings.ascent_rate as int,
                ) as u32);
                assert(spec_ascent(an2, ahe, aes, adepth, agas, afs, afuel, deco_gases@, *settings)
                    == Some::<(Seq<PlanEntry>, u32)>((aes.push(e), afs)));
                assert(spec_planned_entries(legs@, deco_gases@, *settings)
                    == Some::<(Seq<PlanEntry>, u32)>((entries@, first_stop)));
                assert(entries@[0] == pre[0]);
            }
            let totals = gas_totals(&entries, settings.sac_bottom, settings.sac_deco);
            let plan = DivePlan {
                entries,
                gas_totals: totals.0,
                total_ml: totals.1,
                tissue,
                first_stop_m: first_stop,
            };
            proof {
                assert(plan.entries@.drop_last() =~= pre);
                assert(plan.entries@.last() == e);
            }
            proof {
                assert(spec_totals_gases(plan.gas_totals@) == spec_gas_list(plan.entries@));
                assert(forall|k: int|
                    0 <= k < plan.gas_totals@.len() ==> #[trigger] plan.gas_totals@[k].1
                        == spec_gas_volume(
                        plan.entries@,
                        plan.gas_totals@[k].0,
                        settings.sac_bottom as int,
                        settings.sac_deco as int,
                    ));
                assert(forall|k1: int, k2: int|
                    0 <= k1 < k2 < plan.gas_totals@.len() ==> plan.gas_totals@[k1].0
                        != plan.gas_totals@[k2].0);
                assert forall|i: int| 0 <= i < plan.entries@.len() implies exists|k: int|
                    0 <= k < plan.gas_totals@.len() && #[trigger] plan.gas_totals@[k].0
                        == #[trigger] plan.entries@[i].gas by {
                    let k0 = choose|k: int|
                        0 <= k < plan.gas_totals@.len() && #[trigger] plan.gas_totals@[k].0
                            == plan.entries@[i].gas;
                    assert(0 <= k0 < plan.gas_totals@.len() && plan.gas_totals@[k0].0
                        == plan.entries@[i].gas);
                }
            }
            return Ok(plan);
        }
        let stop_d = if stop >= depth {
            depth
        } else {
            stop
        };
        let sel = best_gas(deco_gases, depth);
        let next_gas = match sel {
            Some(idx) => deco_gases[idx].gas,
            None => cur_gas,
        };
        proof {
            match sel {
                Some(idx) => {
                    assert(deco_gases@[idx as int].gas == next_gas && spec_effective_mod(
                        deco_gases@[idx as int],
                    ) >= depth);
                    assert(spec_gas_ok_at(next_gas, depth as int, legs@, deco_gases@));
                },
                None => {},
            }
            assert(next_gas == {
                let si = spec_best_gas_idx(deco_gases@, adepth as int, deco_gases@.len());
                if si == -1 {
                    agas
                } else {
                    deco_gases@[si].gas
                }
            });
        }
        if stop_d < depth {
            let t = transit_seconds(depth - stop_d, settings.ascent_rate);
            let seg = Segment {
                kind: SegmentKind::Transit,
                start_m: depth,
                end_m: stop_d,
                dur_s: t,
            };
            let e = PlanEntry { segment: seg, gas: cur_gas };
            let ghost pre = entries@;
            proof {
                lemma_gas_ok_here(cur_gas, depth as int, seg, legs@, deco_gases@);
                lemma_push_entry(
                    pre,
                    e,
                    legs@,
                    deco_gases@,
                    settings.ascent_rate as int,
                    settings.descent_rate as int,
                );
                lemma_trace_push(pre, e, v);
                lemma_bottom_entries_push(pre, e);
                lemma_stops_adequate_push(
                    pre,
                    e,
                    settings.gf.low as int,
                    settings.gf.high as int,
                    first_stop as int,
                    v,
                );
                lemma_stops_demanded_push(
                    pre,
                    e,
                    settings.gf.low as int,
                    settings.gf.high as int,
                    first_stop as int,
                    v,
                );
            }
            tissue.expose(seg, cur_gas, v);
            entries.push(e);
            proof {
                if first_stop == 0 {
                    lemma_no_stop_push(pre, e);
                }
                lemma_gas_ok_shallower(next_gas, depth as int, stop_d as int, legs@, deco_gases@);
                assert(seg.dur_s == spec_transit_seconds(
                    (adepth - stop_d) as int,
                    settings.ascent_rate as int,
                ) as u32);
            }
            depth = stop_d;
        }
        cur_gas = next_gas;
        proof {
            lemma_gas_ok_shallower(cur_gas, depth as int, stop_d as int, legs@, deco_gases@);
        }
        if first_stop == 0 {
            first_stop = stop_d;
            proof {
                assert forall|i: int|
                    0 <= i < entries@.len() && (#[trigger] entries@[i]).segment.kind
                        is Stop implies spec_stop_depth(
                    spec_ceiling(
                        spec_trace_n2(spec_initial_n2(), entries@.subrange(0, i + 1), v),
                        spec_trace_he(spec_initial_he(), entries@.subrange(0, i + 1), v),
                        v,
                        spec_gf_at(
                            settings.gf.low as int,
                            settings.gf.high as int,
                            entries@[i].segment.end_m as int,
                            first_stop as int,
                        ),
                    ),
                ) < entries@[i].segment.end_m by {
                    assert(!(entries@[i].segment.kind is Stop));
                }
                assert forall|i: int|
                    0 <= i < entries@.len() && (#[trigger] entries@[i]).segment.kind
                        is Stop implies spec_stop_depth(
                    spec_ceiling(
                        spec_trace_n2(spec_initial_n2(), entries@.subrange(0, i), v),
                        spec_trace_he(spec_initial_he(), entries@.subrange(0, i), v),
                        v,
                        spec_gf_at(
                            settings.gf.low as int,
                            settings.gf.high as int,
                            entries@[i].segment.end_m as int,
                            first_stop as int,
                        ),
                    ),
                ) >= entries@[i].segment.end_m by {
                    assert(!(entries@[i].segment.kind is Stop));
                }
            }
        }
        let found = stop_minutes_needed(&tissue, stop_d, first_stop, settings, cur_gas);
        match found {
            None => {
                proof {
                    assert(spec_ascent(
                        an2,
                        ahe,
                        aes,
                        adepth,
                        agas,
                        afs,
                        afuel,
                        deco_gases@,
                        *settings,
                    ) is None);
                    assert(spec_planned_entries(legs@, deco_gases@, *settings) is None);
                }
                return Err(PlanError::UnreachableCeiling);
            },
            Some(m) => {
                if m > 0 {
                    let sseg = Segment {
                        kind: SegmentKind::Stop,
                        start_m: stop_d,
                        end_m: stop_d,
                        dur_s: m * 60,
                    };
                    let e = PlanEntry { segment: sseg, gas: cur_gas };
                    let ghost pre = entries@;
                    proof {
                        lemma_gas_ok_here(cur_gas, depth as int, sseg, legs@, deco_gases@);
                        lemma_push_entry(
                    pre,
                    e,
                    legs@,
                    deco_gases@,
                    settings.ascent_rate as int,
                    settings.descent_rate as int,
                );
                        lemma_trace_push(pre, e, v);
                        lemma_bottom_entries_push(pre, e);
                        assert(e.segment == spec_stop_segment(stop_d, m));
                        assert(spec_trace_n2(spec_initial_n2(), pre.push(e), v) == spec_n2_after(
                            tissue.n2_model(),
                            spec_stop_segment(stop_d, m),
                            cur_gas,
                            v,
                        ));
                        assert(spec_trace_he(spec_initial_he(), pre.push(e), v) == spec_he_after(
                            tissue.he_model(),
                            spec_stop_segment(stop_d, m),
                            cur_gas,
                            v,
                        ));
                        lemma_stops_adequate_push(
                            pre,
                            e,
                            settings.gf.low as int,
                            settings.gf.high as int,
                            first_stop as int,
                            v,
                        );
                        lemma_stops_demanded_push(
                            pre,
                            e,
                            settings.gf.low as int,
                            settings.gf.high as int,
                            first_stop as int,
                            v,
                        );
                    }
                    tissue.expose(sseg, cur_gas, v);
                    entries.push(e);
                }
                proof {
                    assert(spec_ascent(
                        an2,
                        ahe,
                        aes,
                        adepth,
                        agas,
                        afs,
                        afuel,
                        deco_gases@,
                        *settings,
                    ) == spec_ascent(
                        tissue.n2_model(),
                        tissue.he_model(),
                        entries@,
                        depth,
                        cur_gas,
                        first_stop,
                        fuel,
                        deco_gases@,
                        *settings,
                    ));
                }
            },
        }
    }
}

proof fn lemma_no_stop_push(pre: Seq<PlanEntry>, e: PlanEntry)
    requires
        forall|i: int| 0 <= i < pre.len() ==> !((#[trigger] pre[i]).segment.kind is Stop),
        !(e.segment.kind is Stop),
    ensures
        forall|i: int|
            0 <= i < pre.push(e).len() ==> !((#[trigger] pre.push(e)[i]).segment.kind is Stop),
{
    let es = pre.push(e);
    assert forall|i: int| 0 <= i < es.len() implies !((#[trigger] es[i]).segment.kind
        is Stop) by {
        if i < pre.len() {
            assert(es[i] == pre[i]);
        } else {
            assert(es[i] == e);
        }
    }
}

/// A gas breathable at `depth_m` is accounted for on any segment lying at
/// or above that depth.
proof fn lemma_gas_ok_here(
    gas: Gas,
    depth_m: int,
    seg: Segment,
    legs: Seq<BottomLeg>,
    dgs: Seq<DecoGas>,
)
    requires
        spec_gas_ok_at(gas, depth_m, legs, dgs),
        seg.start_m <= depth_m,
        seg.end_m <= depth_m,
    ensures
        spec_gas_ok(PlanEntry { segment: seg, gas }, legs, dgs),
{
}

/// A gas breathable at some depth is breathable at any shallower depth.
proof fn lemma_gas_ok_shallower(
    gas: Gas,
    depth_m: int,
    shallower_m: int,
    legs: Seq<BottomLeg>,
    dgs: Seq<DecoGas>,
)
    requires
        spec_gas_ok_at(gas, depth_m, legs, dgs),
        shallower_m <= depth_m,
    ensures
        spec_gas_ok_at(gas, shallower_m, legs, dgs),
{
}

} // verus!
