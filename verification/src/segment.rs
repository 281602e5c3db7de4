//! Dive profile segments.

use vstd::prelude::*;
use crate::PlanError;
use crate::gas::Gas;
use crate::tables::{COMPARTMENT_COUNT, Variant, spec_he_rate, spec_n2_rate};
use crate::tissue::{MAX_SEGMENT_SECONDS, TissueState, spec_run_const, spec_run_transit};
use crate::units::{MAX_DEPTH_METRES, spec_inspired_pressure};

verus! {

/// The kind of one leg of the profile.
#[derive(Clone, Copy, Debug, PartialEq, Eq, Structural)]
pub enum SegmentKind {
    /// A depth change at a fixed rate (a descent or an ascent).
    Transit,
    /// A constant-depth working leg requested by the caller.
    Bottom,
    /// A constant-depth decompression stop generated by the planner.
    Stop,
}

/// One immutable leg of the dive profile: a kind, start and end depths in
/// metres, and a duration in seconds.  It carries no tissue state.
#[derive(Clone, Copy, Debug, PartialEq, Eq, Structural)]
pub struct Segment {
    pub kind: SegmentKind,
    pub start_m: u32,
    pub end_m: u32,
    pub dur_s: u32,
}

/// Seconds taken to change depth by `delta_m` metres at `rate` metres
/// per minute (rounded down).
pub open spec fn spec_transit_seconds(delta_m: int, rate: int) -> int {
    delta_m * 60 / rate
}

impl Segment {
    /// Depths and duration in range; a transit changes depth, a
    /// constant-depth leg does not.
    pub open spec fn wf(self) -> bool {
        &&& self.start_m <= MAX_DEPTH_METRES
        &&& self.end_m <= MAX_DEPTH_METRES
        &&& self.dur_s <= MAX_SEGMENT_SECONDS
        &&& (self.kind is Transit <==> self.start_m != self.end_m)
    }

    /// Validating factory: rejects a shape whose kind disagrees with its
    /// depths.
    pub fn new(kind: SegmentKind, start_m: u32, end_m: u32, dur_s: u32) -> (r: Result<
        Segment,
        PlanError,
    >)
        requires
            start_m <= MAX_DEPTH_METRES,
            end_m <= MAX_DEPTH_METRES,
            dur_s <= MAX_SEGMENT_SECONDS,
        ensures
            ((kind is Transit) <==> start_m != end_m) ==> r == Ok::<Segment, PlanError>(
                Segment { kind, start_m, end_m, dur_s },
            ),
            !((kind is Transit) <==> start_m != end_m) ==> r == Err::<Segment, PlanError>(
                PlanError::InvalidSegment,
            ),
            r is Ok ==> r->Ok_0.wf(),
    {
        let is_transit = match kind {
            SegmentKind::Transit => true,
            _ => false,
        };
        if is_transit == (start_m != end_m) {
            Ok(Segment { kind, start_m, end_m, dur_s })
        } else {
            Err(PlanError::InvalidSegment)
        }
    }

    pub fn kind(&self) -> (r: SegmentKind)
        ensures
            r == self.kind,
    {
        self.kind
    }

    pub fn start_depth(&self) -> (r: u32)
        ensures
            r == self.start_m,
    {
        self.start_m
    }

    pub fn end_depth(&self) -> (r: u32)
        ensures
            r == self.end_m,
    {
        self.end_m
    }

    pub fn duration_s(&self) -> (r: u32)
        ensures
            r == self.dur_s,
    {
        self.dur_s
    }
}

/// Transit time in executable form.
pub fn transit_seconds(delta_m: u32, rate_m_per_min: u32) -> (r: u32)
    requires
        delta_m <= MAX_DEPTH_METRES,
        1 <= rate_m_per_min,
    ensures
        r == spec_transit_seconds(delta_m as int, rate_m_per_min as int),
        r <= MAX_SEGMENT_SECONDS,
{
    proof {
        vstd::arithmetic::div_mod::lemma_div_pos_is_pos(
            (delta_m * 60) as int,
            rate_m_per_min as int,
        );
        vstd::arithmetic::div_mod::lemma_div_is_ordered_by_denominator(
            (delta_m * 60) as int,
            1,
            rate_m_per_min as int,
        );
    }
    (delta_m * 60) / rate_m_per_min
}

/// One channel of one compartment after exposure to a whole segment.
pub open spec fn spec_channel_after(p: int, seg: Segment, pct: int, rate: int) -> int {
    if seg.kind is Transit {
        spec_run_transit(
            p,
            seg.start_m as int,
            seg.end_m as int,
            seg.dur_s as nat,
            pct,
            rate,
            seg.dur_s as nat,
        )
    } else {
        spec_run_const(
            p,
            spec_inspired_pressure(seg.end_m as int, pct),
            rate,
            seg.dur_s as nat,
        )
    }
}

/// Both channel vectors of the whole state after exposure to a segment.
pub open spec fn spec_n2_after(n2: Seq<int>, seg: Segment, gas: Gas, v: Variant) -> Seq<int> {
    Seq::new(n2.len(), |i: int| spec_channel_after(n2[i], seg, gas.spec_n2(), spec_n2_rate(v, i) as int))
}

pub open spec fn spec_he_after(he: Seq<int>, seg: Segment, gas: Gas, v: Variant) -> Seq<int> {
    Seq::new(he.len(), |i: int| spec_channel_after(he[i], seg, gas.spec_he(), spec_he_rate(v, i) as int))
}

impl TissueState {
    /// The nitrogen channels as mathematical integers.
    pub open spec fn n2_model(self) -> Seq<int> {
        self.n2@.map_values(|x: u64| x as int)
    }

    /// The helium channels as mathematical integers.
    pub open spec fn he_model(self) -> Seq<int> {
        self.he@.map_values(|x: u64| x as int)
    }

    /// Expose the whole state to one segment breathing `gas`: the
    /// constant-depth recurrence for bottom legs and stops, the
    /// interpolated-depth recurrence for transits.
    pub fn expose(&mut self, seg: Segment, gas: Gas, v: Variant)
        requires
            old(self).wf(),
            seg.wf(),
            gas.valid(),
        ensures
            final(self).wf(),
            final(self).n2_model() == spec_n2_after(old(self).n2_model(), seg, gas, v),
            final(self).he_model() == spec_he_after(old(self).he_model(), seg, gas, v),
            seg.dur_s == 0 ==> *final(self) == *old(self),
    {
        match seg.kind {
            SegmentKind::Transit => {
                self.expose_transit(seg.start_m, seg.end_m, seg.dur_s, gas, v);
            },
            _ => {
                self.expose_constant(seg.end_m, seg.dur_s, gas, v);
            },
        }
        proof {
            assert(self.n2_model() =~= spec_n2_after(old(self).n2_model(), seg, gas, v));
            assert(self.he_model() =~= spec_he_after(old(self).he_model(), seg, gas, v));
        }
    }
}

/// Exposing the state to a zero-duration segment leaves every channel of
/// the model unchanged.
pub proof fn lemma_zero_duration_noop(n2: Seq<int>, he: Seq<int>, seg: Segment, gas: Gas, v: Variant)
    requires
        seg.dur_s == 0,
    ensures
        spec_n2_after(n2, seg, gas, v) =~= n2,
        spec_he_after(he, seg, gas, v) =~= he,
{
}

} // verus!
