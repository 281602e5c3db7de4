//! The tissue compartment model.
//!
//! Sixteen compartments each carry a nitrogen and a helium partial
//! pressure, in nanobar.  Exposing the state to a segment advances every
//! channel by one exact integer step per second: the channel moves toward
//! the inspired pressure of its gas by `rate` parts per billion of the
//! remaining difference.  During a depth change the inspired pressure is
//! re-interpolated each second along the linear descent or ascent, the
//! discrete form of the Schreiner relaxation against a moving target.

use vstd::prelude::*;
use vstd::pervasive::VecAdditionalExecFns;
use crate::gas::Gas;
use crate::tables::{COMPARTMENT_COUNT, Variant, n2_rate, he_rate, spec_n2_rate, spec_he_rate};
use crate::units::{
    MAX_DEPTH_METRES, MAX_PRESSURE_NANOBAR, SURFACE_PRESSURE_NANOBAR, WATER_VAPOUR_NANOBAR,
    depth_pressure, inspired_pressure, spec_depth_pressure, spec_inspired_pressure,
};

verus! {

/// Scale of the per-second rates: parts per billion.
pub const RATE_SCALE: u64 = 1_000_000_000;

/// Nitrogen pressure of a diver in equilibrium with air at the surface,
/// in nanobar: 79 percent of ambient pressure less water vapour.
pub const SURFACE_N2_NANOBAR: u64 = 740_569_700;

/// One second of exposure of one channel: move `p` toward `target` by
/// `rate` parts per billion of the difference, rounded toward `p`.
pub open spec fn spec_step(p: int, target: int, rate: int) -> int {
    if target >= p {
        p + (target - p) * rate / (RATE_SCALE as int)
    } else {
        p - (p - target) * rate / (RATE_SCALE as int)
    }
}

/// `t` seconds of exposure of one channel at a fixed inspired pressure.
pub open spec fn spec_run_const(p: int, target: int, rate: int, t: nat) -> int
    decreases t,
{
    if t == 0 {
        p
    } else {
        spec_step(spec_run_const(p, target, rate, (t - 1) as nat), target, rate)
    }
}

/// Ambient pressure `s` seconds into a `t`-second depth change from
/// `d1` to `d2` metres, linearly interpolated.
pub open spec fn spec_lerp_pressure(d1: int, d2: int, s: int, t: int) -> int {
    let p1 = spec_depth_pressure(d1);
    let p2 = spec_depth_pressure(d2);
    if p2 >= p1 {
        p1 + (p2 - p1) * s / t
    } else {
        p1 - (p1 - p2) * s / t
    }
}

/// Inspired pressure of one inert gas `s` seconds into a depth change.
pub open spec fn spec_transit_target(d1: int, d2: int, s: int, t: int, pct: int) -> int {
    (spec_lerp_pressure(d1, d2, s, t) - WATER_VAPOUR_NANOBAR) * pct / 100
}

/// `s` seconds of exposure of one channel during a `t`-second depth
/// change: each second steps toward the inspired pressure at the depth
/// where that second began.
pub open spec fn spec_run_transit(
    p: int,
    d1: int,
    d2: int,
    t: nat,
    pct: int,
    rate: int,
    s: nat,
) -> int
    decreases s,
{
    if s == 0 {
        p
    } else {
        spec_step(
            spec_run_transit(p, d1, d2, t, pct, rate, (s - 1) as nat),
            spec_transit_target(d1, d2, (s - 1) as int, t as int, pct),
            rate,
        )
    }
}

/// One step stays between the old pressure and the target: it moves
/// toward the target, never reaches past it, and never leaves 1..=max
/// when both ends lie there.
pub proof fn lemma_step_bounds(p: int, target: int, rate: int)
    requires
        0 <= p,
        0 <= target,
        0 < rate < RATE_SCALE,
    ensures
        target >= p ==> p <= spec_step(p, target, rate) <= target,
        target < p ==> target < spec_step(p, target, rate) <= p,
{
    if target >= p {
        let d = target - p;
        assert(d * rate >= 0) by (nonlinear_arith)
            requires d >= 0, rate >= 0;
        vstd::arithmetic::div_mod::lemma_div_pos_is_pos(d * rate, RATE_SCALE as int);
        assert(d * rate <= (RATE_SCALE as int) * d) by (nonlinear_arith)
            requires d >= 0, rate <= RATE_SCALE;
        vstd::arithmetic::div_mod::lemma_multiply_divide_le(d * rate, RATE_SCALE as int, d);
    } else {
        let d = p - target;
        assert(d * rate >= 0) by (nonlinear_arith)
            requires d >= 0, rate >= 0;
        vstd::arithmetic::div_mod::lemma_div_pos_is_pos(d * rate, RATE_SCALE as int);
        assert(d * rate < (RATE_SCALE as int) * d) by (nonlinear_arith)
            requires d >= 1, 0 < rate < RATE_SCALE;
        vstd::arithmetic::div_mod::lemma_multiply_divide_lt(d * rate, RATE_SCALE as int, d);
    }
}

/// Exposure composes over time: running a channel for `t1 + t2` seconds
/// is running it for `t1` seconds and then for `t2` more.
pub proof fn lemma_run_const_additive(p: int, target: int, rate: int, t1: nat, t2: nat)
    ensures
        spec_run_const(p, target, rate, t1 + t2) == spec_run_const(
            spec_run_const(p, target, rate, t1),
            target,
            rate,
            t2,
        ),
    decreases t2,
{
    if t2 > 0 {
        lemma_run_const_additive(p, target, rate, t1, (t2 - 1) as nat);
        assert(t1 + t2 - 1 == t1 + (t2 - 1) as nat);
    }
}

/// While a channel is at least one quantum away from its inspired
/// pressure — the remaining difference times the rate reaching one whole
/// part — every further second moves it strictly closer: exposure long
/// against the half-life drives the channel arbitrarily close to the
/// target, down to the fixed-point resolution.
pub proof fn lemma_step_strict_progress(p: int, target: int, rate: int)
    requires
        0 <= p,
        0 <= target,
        0 < rate < RATE_SCALE,
    ensures
        target > p && (target - p) * rate >= RATE_SCALE ==> spec_step(p, target, rate) > p,
        target < p && (p - target) * rate >= RATE_SCALE ==> spec_step(p, target, rate) < p,
{
    lemma_step_bounds(p, target, rate);
    if target > p && (target - p) * rate >= RATE_SCALE {
        vstd::arithmetic::div_mod::lemma_div_is_ordered(
            RATE_SCALE as int,
            (target - p) * rate,
            RATE_SCALE as int,
        );
        vstd::arithmetic::div_mod::lemma_div_by_self(RATE_SCALE as int);
    }
    if target < p && (p - target) * rate >= RATE_SCALE {
        vstd::arithmetic::div_mod::lemma_div_is_ordered(
            RATE_SCALE as int,
            (p - target) * rate,
            RATE_SCALE as int,
        );
        vstd::arithmetic::div_mod::lemma_div_by_self(RATE_SCALE as int);
    }
}

/// A whole constant-depth run stays between the old pressure and the
/// target, and its distance to the target never grows with time: the
/// channel converges monotonically and never overshoots.
pub proof fn lemma_run_const_bounds(p: int, target: int, rate: int, t: nat)
    requires
        0 <= p,
        0 <= target,
        0 < rate < RATE_SCALE,
    ensures
        p <= target ==> p <= spec_run_const(p, target, rate, t) <= target,
        p >= target ==> target <= spec_run_const(p, target, rate, t) <= p,
        p >= 1 ==> spec_run_const(p, target, rate, t) >= 1,
    decreases t,
{
    if t > 0 {
        lemma_run_const_bounds(p, target, rate, (t - 1) as nat);
        lemma_step_bounds(spec_run_const(p, target, rate, (t - 1) as nat), target, rate);
    }
}

/// Monotone convergence: with more time at a fixed inspired pressure the
/// channel only moves further toward it, and never past it.
pub proof fn lemma_run_const_monotone(p: int, target: int, rate: int, t1: nat, t2: nat)
    requires
        0 <= p,
        0 <= target,
        0 < rate < RATE_SCALE,
        t1 <= t2,
    ensures
        p <= target ==> spec_run_const(p, target, rate, t1) <= spec_run_const(
            p,
            target,
            rate,
            t2,
        ) <= target,
        p >= target ==> spec_run_const(p, target, rate, t1) >= spec_run_const(
            p,
            target,
            rate,
            t2,
        ) >= target,
    decreases t2,
{
    lemma_run_const_bounds(p, target, rate, t1);
    lemma_run_const_bounds(p, target, rate, t2);
    if t1 < t2 {
        lemma_run_const_monotone(p, target, rate, t1, (t2 - 1) as nat);
        lemma_run_const_bounds(p, target, rate, (t2 - 1) as nat);
        lemma_step_bounds(spec_run_const(p, target, rate, (t2 - 1) as nat), target, rate);
    }
}

/// One exact exposure step of one channel, in executable form.
fn step_channel(p: u64, target: u64, rate: u64) -> (r: u64)
    requires
        p <= MAX_PRESSURE_NANOBAR,
        target <= MAX_PRESSURE_NANOBAR,
        0 < rate < RATE_SCALE,
    ensures
        r == spec_step(p as int, target as int, rate as int),
        r <= MAX_PRESSURE_NANOBAR,
        p >= 1 ==> r >= 1,
{
    proof {
        lemma_step_bounds(p as int, target as int, rate as int);
    }
    if target >= p {
        let d = target - p;
        p + (((d as u128) * (rate as u128)) / (RATE_SCALE as u128)) as u64
    } else {
        let d = p - target;
        p - (((d as u128) * (rate as u128)) / (RATE_SCALE as u128)) as u64
    }
}

/// The per-compartment inert-gas pressures of a diver, in nanobar.
#[derive(Debug)]
pub struct TissueState {
    pub n2: Vec<u64>,
    pub he: Vec<u64>,
}

impl TissueState {
    /// Sixteen compartments, every channel positive and below the
    /// pressure of the deepest supported depth.
    pub open spec fn wf(self) -> bool {
        &&& self.n2@.len() == COMPARTMENT_COUNT
        &&& self.he@.len() == COMPARTMENT_COUNT
        &&& forall|i: int|
            0 <= i < COMPARTMENT_COUNT ==> 1 <= #[trigger] self.n2@[i] <= MAX_PRESSURE_NANOBAR
        &&& forall|i: int|
            0 <= i < COMPARTMENT_COUNT ==> #[trigger] self.he@[i] <= MAX_PRESSURE_NANOBAR
    }

    /// The state of a diver who has breathed air at the surface for a
    /// long time: nitrogen in equilibrium, no helium.
    pub fn surface_equilibrium() -> (r: TissueState)
        ensures
            r.wf(),
            forall|i: int| 0 <= i < COMPARTMENT_COUNT ==> #[trigger] r.n2@[i] == SURFACE_N2_NANOBAR,
            forall|i: int| 0 <= i < COMPARTMENT_COUNT ==> #[trigger] r.he@[i] == 0u64,
    {
        let n2 = vec![SURFACE_N2_NANOBAR; 16];
        let he = vec![0u64; 16];
        TissueState { n2, he }
    }

    /// Expose every compartment to `dur_s` seconds at a constant depth
    /// breathing `gas`.  A zero duration changes nothing, bit for bit.
    pub fn expose_constant(&mut self, depth_m: u32, dur_s: u32, gas: Gas, v: Variant)
        requires
            old(self).wf(),
            gas.valid(),
            depth_m <= MAX_DEPTH_METRES,
        ensures
            final(self).wf(),
            forall|i: int|
                0 <= i < COMPARTMENT_COUNT ==> #[trigger] final(self).n2@[i] == spec_run_const(
                    old(self).n2@[i] as int,
                    spec_inspired_pressure(depth_m as int, gas.spec_n2()),
                    spec_n2_rate(v, i) as int,
                    dur_s as nat,
                ),
            forall|i: int|
                0 <= i < COMPARTMENT_COUNT ==> #[trigger] final(self).he@[i] == spec_run_const(
                    old(self).he@[i] as int,
                    spec_inspired_pressure(depth_m as int, gas.spec_he()),
                    spec_he_rate(v, i) as int,
                    dur_s as nat,
                ),
            dur_s == 0 ==> *final(self) == *old(self),
    {
        if dur_s == 0 {
            return ;
        }
        let n2_target = inspired_pressure(depth_m, gas.n2_pct());
        let he_target = inspired_pressure(depth_m, gas.he_pct());
        let mut i: usize = 0;
        while i < COMPARTMENT_COUNT
            invariant
                self.n2@.len() == COMPARTMENT_COUNT,
                self.he@.len() == COMPARTMENT_COUNT,
                i <= COMPARTMENT_COUNT,
                gas.valid(),
                depth_m <= MAX_DEPTH_METRES,
                n2_target == spec_inspired_pressure(depth_m as int, gas.spec_n2()),
                he_target == spec_inspired_pressure(depth_m as int, gas.spec_he()),
                n2_target <= MAX_PRESSURE_NANOBAR,
                he_target <= MAX_PRESSURE_NANOBAR,
                forall|j: int|
                    i <= j < COMPARTMENT_COUNT ==> #[trigger] self.n2@[j] == old(self).n2@[j],
                forall|j: int|
                    i <= j < COMPARTMENT_COUNT ==> #[trigger] self.he@[j] == old(self).he@[j],
                forall|j: int|
                    0 <= j < COMPARTMENT_COUNT ==> 1 <= #[trigger] self.n2@[j]
                        <= MAX_PRESSURE_NANOBAR,
                forall|j: int|
                    0 <= j < COMPARTMENT_COUNT ==> #[trigger] self.he@[j]
                        <= MAX_PRESSURE_NANOBAR,
                forall|j: int|
                    0 <= j < i ==> #[trigger] self.n2@[j] == spec_run_const(
                        old(self).n2@[j] as int,
                        spec_inspired_pressure(depth_m as int, gas.spec_n2()),
                        spec_n2_rate(v, j) as int,
                        dur_s as nat,
                    ),
                forall|j: int|
                    0 <= j < i ==> #[trigger] self.he@[j] == spec_run_const(
                        old(self).he@[j] as int,
                        spec_inspired_pressure(depth_m as int, gas.spec_he()),
                        spec_he_rate(v, j) as int,
                        dur_s as nat,
                    ),
            decreases COMPARTMENT_COUNT - i,
        {
            let new_n2 = run_channel_const(self.n2[i], n2_target, n2_rate(v, i), dur_s);
            let new_he = run_channel_const(self.he[i], he_target, he_rate(v, i), dur_s);
            self.n2.set(i, new_n2);
            self.he.set(i, new_he);
            i = i + 1;
        }
    }

    /// An independent copy of the state, for scratch what-if exposure.
    pub fn snapshot(&self) -> (r: TissueState)
        ensures
            r.n2@ == self.n2@,
            r.he@ == self.he@,
    {
        let n2 = self.n2.clone();
        let he = self.he.clone();
        proof {
            assert(n2@ =~= self.n2@);
            assert(he@ =~= self.he@);
        }
        TissueState { n2, he }
    }

    /// Expose every compartment to a `dur_s`-second depth change from
    /// `d1` to `d2` metres breathing `gas`.  A zero duration changes
    /// nothing, bit for bit.
    pub fn expose_transit(&mut self, d1: u32, d2: u32, dur_s: u32, gas: Gas, v: Variant)
        requires
            old(self).wf(),
            gas.valid(),
            d1 <= MAX_DEPTH_METRES,
            d2 <= MAX_DEPTH_METRES,
            dur_s <= MAX_SEGMENT_SECONDS,
        ensures
            final(self).wf(),
            forall|i: int|
                0 <= i < COMPARTMENT_COUNT ==> #[trigger] final(self).n2@[i] == spec_run_transit(
                    old(self).n2@[i] as int,
                    d1 as int,
                    d2 as int,
                    dur_s as nat,
                    gas.spec_n2(),
                    spec_n2_rate(v, i) as int,
                    dur_s as nat,
                ),
            forall|i: int|
                0 <= i < COMPARTMENT_COUNT ==> #[trigger] final(self).he@[i] == spec_run_transit(
                    old(self).he@[i] as int,
                    d1 as int,
                    d2 as int,
                    dur_s as nat,
                    gas.spec_he(),
                    spec_he_rate(v, i) as int,
                    dur_s as nat,
                ),
            dur_s == 0 ==> *final(self) == *old(self),
    {
        if dur_s == 0 {
            return ;
        }
        let n2_pct = gas.n2_pct();
        let he_pct = gas.he_pct();
        let mut i: usize = 0;
        while i < COMPARTMENT_COUNT
            invariant
                self.n2@.len() == COMPARTMENT_COUNT,
                self.he@.len() == COMPARTMENT_COUNT,
                i <= COMPARTMENT_COUNT,
                gas.valid(),
                d1 <= MAX_DEPTH_METRES,
                d2 <= MAX_DEPTH_METRES,
                0 < dur_s <= MAX_SEGMENT_SECONDS,
                n2_pct == gas.spec_n2(),
                he_pct == gas.spec_he(),
                forall|j: int|
                    i <= j < COMPARTMENT_COUNT ==> #[trigger] self.n2@[j] == old(self).n2@[j],
                forall|j: int|
                    i <= j < COMPARTMENT_COUNT ==> #[trigger] self.he@[j] == old(self).he@[j],
                forall|j: int|
                    0 <= j < COMPARTMENT_COUNT ==> 1 <= #[trigger] self.n2@[j]
                        <= MAX_PRESSURE_NANOBAR,
                forall|j: int|
                    0 <= j < COMPARTMENT_COUNT ==> #[trigger] self.he@[j]
                        <= MAX_PRESSURE_NANOBAR,
                forall|j: int|
                    0 <= j < i ==> #[trigger] self.n2@[j] == spec_run_transit(
                        old(self).n2@[j] as int,
                        d1 as int,
                        d2 as int,
                        dur_s as nat,
                        gas.spec_n2(),
                        spec_n2_rate(v, j) as int,
                        dur_s as nat,
                    ),
                forall|j: int|
                    0 <= j < i ==> #[trigger] self.he@[j] == spec_run_transit(
                        old(self).he@[j] as int,
                        d1 as int,
                        d2 as int,
                        dur_s as nat,
                        gas.spec_he(),
                        spec_he_rate(v, j) as int,
                        dur_s as nat,
                    ),
            decreases COMPARTMENT_COUNT - i,
        {
            let new_n2 = run_channel_transit(self.n2[i], d1, d2, dur_s, n2_pct, n2_rate(v, i));
            let new_he = run_channel_transit(self.he[i], d1, d2, dur_s, he_pct, he_rate(v, i));
            self.n2.set(i, new_n2);
            self.he.set(i, new_he);
            i = i + 1;
        }
    }
}

/// Longest segment duration the model accepts, in seconds (one week);
/// keeps the interpolation arithmetic inside u64.
pub const MAX_SEGMENT_SECONDS: u32 = 604_800;

/// Ambient pressure part-way through a depth change, in executable form.
fn lerp_pressure(d1: u32, d2: u32, s: u32, t: u32) -> (r: u64)
    requires
        d1 <= MAX_DEPTH_METRES,
        d2 <= MAX_DEPTH_METRES,
        s < t,
        t <= MAX_SEGMENT_SECONDS,
    ensures
        r == spec_lerp_pressure(d1 as int, d2 as int, s as int, t as int),
        SURFACE_PRESSURE_NANOBAR <= r <= MAX_PRESSURE_NANOBAR,
{
    let p1 = depth_pressure(d1);
    let p2 = depth_pressure(d2);
    if p2 >= p1 {
        let d = p2 - p1;
        proof {
            assert(d * s <= t * d) by (nonlinear_arith)
                requires d >= 0, s <= t;
            assert(d * s <= 102_360_000_000int * 604_800int) by (nonlinear_arith)
                requires 0 <= d <= 102_360_000_000, 0 <= s <= 604_800;
            vstd::arithmetic::div_mod::lemma_div_pos_is_pos((d * s) as int, t as int);
            vstd::arithmetic::div_mod::lemma_multiply_divide_le((d * s) as int, t as int, d as int);
        }
        p1 + (d * (s as u64)) / (t as u64)
    } else {
        let d = p1 - p2;
        proof {
            assert(d * s <= t * d) by (nonlinear_arith)
                requires d >= 0, s <= t;
            assert(d * s <= 102_360_000_000int * 604_800int) by (nonlinear_arith)
                requires 0 <= d <= 102_360_000_000, 0 <= s <= 604_800;
            vstd::arithmetic::div_mod::lemma_div_pos_is_pos((d * s) as int, t as int);
            vstd::arithmetic::div_mod::lemma_multiply_divide_le((d * s) as int, t as int, d as int);
        }
        p1 - (d * (s as u64)) / (t as u64)
    }
}

/// Inspired inert-gas pressure part-way through a depth change.
fn transit_target(d1: u32, d2: u32, s: u32, t: u32, pct: u8) -> (r: u64)
    requires
        d1 <= MAX_DEPTH_METRES,
        d2 <= MAX_DEPTH_METRES,
        s < t,
        t <= MAX_SEGMENT_SECONDS,
        pct <= 100,
    ensures
        r == spec_transit_target(d1 as int, d2 as int, s as int, t as int, pct as int),
        r <= MAX_PRESSURE_NANOBAR,
{
    let ambient = lerp_pressure(d1, d2, s, t);
    let lung = ambient - WATER_VAPOUR_NANOBAR;
    proof {
        assert(lung * pct <= lung * 100) by (nonlinear_arith)
            requires pct <= 100, lung >= 0;
        assert(lung * 100 / 100 == lung);
        vstd::arithmetic::div_mod::lemma_div_pos_is_pos((lung * pct) as int, 100int);
        vstd::arithmetic::div_mod::lemma_div_is_ordered(
            (lung * pct) as int,
            (lung * 100) as int,
            100int,
        );
    }
    (lung * (pct as u64)) / 100
}

/// Run one channel through a `t`-second depth change.
fn run_channel_transit(p: u64, d1: u32, d2: u32, t: u32, pct: u8, rate: u64) -> (r: u64)
    requires
        p <= MAX_PRESSURE_NANOBAR,
        d1 <= MAX_DEPTH_METRES,
        d2 <= MAX_DEPTH_METRES,
        t <= MAX_SEGMENT_SECONDS,
        pct <= 100,
        0 < rate < RATE_SCALE,
    ensures
        r == spec_run_transit(
            p as int,
            d1 as int,
            d2 as int,
            t as nat,
            pct as int,
            rate as int,
            t as nat,
        ),
        r <= MAX_PRESSURE_NANOBAR,
        p >= 1 ==> r >= 1,
{
    let mut cur = p;
    let mut s: u32 = 0;
    while s < t
        invariant
            s <= t,
            cur <= MAX_PRESSURE_NANOBAR,
            p >= 1 ==> cur >= 1,
            d1 <= MAX_DEPTH_METRES,
            d2 <= MAX_DEPTH_METRES,
            t <= MAX_SEGMENT_SECONDS,
            pct <= 100,
            0 < rate < RATE_SCALE,
            cur == spec_run_transit(
                p as int,
                d1 as int,
                d2 as int,
                t as nat,
                pct as int,
                rate as int,
                s as nat,
            ),
        decreases t - s,
    {
        let target = transit_target(d1, d2, s, t, pct);
        cur = step_channel(cur, target, rate);
        s = s + 1;
    }
    cur
}

/// Run one channel for `t` seconds at a fixed inspired pressure.
fn run_channel_const(p: u64, target: u64, rate: u64, t: u32) -> (r: u64)
    requires
        p <= MAX_PRESSURE_NANOBAR,
        target <= MAX_PRESSURE_NANOBAR,
        0 < rate < RATE_SCALE,
    ensures
        r == spec_run_const(p as int, target as int, rate as int, t as nat),
        r <= MAX_PRESSURE_NANOBAR,
        p >= 1 ==> r >= 1,
{
    let mut cur = p;
    let mut s: u32 = 0;
    while s < t
        invariant
            s <= t,
            cur <= MAX_PRESSURE_NANOBAR,
            p >= 1 ==> cur >= 1,
            target <= MAX_PRESSURE_NANOBAR,
            0 < rate < RATE_SCALE,
            cur == spec_run_const(p as int, target as int, rate as int, s as nat),
        decreases t - s,
    {
        cur = step_channel(cur, target, rate);
        s = s + 1;
    }
    cur
}

} // verus!
