//! The ceiling calculator: the deepest ambient pressure to which each
//! compartment tolerates ascending, shrunk by a gradient factor.
//!
//! For a compartment with combined inert pressure `s`, helium-weighted
//! coefficients `a` (nanobar) and `b` (scaled by 10_000), and gradient
//! factor `g` percent, the tolerated ambient pressure is the exact
//! integer form of `(s - a*g/100) / ((g/100)/b + 1 - g/100)`:
//! `(s*100*b - a*g*b) / (g*10_000 + (100-g)*b)`, floored at zero.
//! The ceiling of the whole state is the largest tolerated pressure over
//! the sixteen compartments: the unrounded physiological value; rounding
//! to stop depths belongs to the planner.

use vstd::prelude::*;
use crate::tables::{
    COMPARTMENT_COUNT, Variant, he_a, he_b, n2_a, n2_b, spec_he_a, spec_he_b, spec_n2_a,
    spec_n2_b, spec_n2_rate,
};
use crate::tables::lemma_table_bounds;
use crate::tissue::{TissueState, spec_run_const, lemma_run_const_bounds, lemma_run_const_monotone};
use crate::units::{MAX_PRESSURE_NANOBAR, NANOBAR_PER_METRE, SURFACE_PRESSURE_NANOBAR};

verus! {

/// No tolerated pressure exceeds this bound, in nanobar.
pub const TOLERATED_PRESSURE_BOUND: u64 = 30_000_000_000_000;

/// Helium-weighted Buhlmann `a` coefficient of one compartment, nanobar.
pub open spec fn spec_weighted_a(pn: int, ph: int, v: Variant, i: int) -> int {
    (spec_n2_a(v, i) * pn + spec_he_a(v, i) * ph) / (pn + ph)
}

/// Helium-weighted Buhlmann `b` coefficient, scaled by 10_000.
pub open spec fn spec_weighted_b(pn: int, ph: int, v: Variant, i: int) -> int {
    (spec_n2_b(v, i) * pn + spec_he_b(v, i) * ph) / (pn + ph)
}

/// Ambient pressure one compartment tolerates under gradient factor `g`
/// percent, in nanobar, floored at zero.
pub open spec fn spec_tolerated(pn: int, ph: int, v: Variant, i: int, g: int) -> int {
    let s = pn + ph;
    let a = spec_weighted_a(pn, ph, v, i);
    let b = spec_weighted_b(pn, ph, v, i);
    let num = s * 100 * b - a * g * b;
    let den = g * 10_000 + (100 - g) * b;
    if num <= 0 {
        0
    } else {
        num / den
    }
}

/// The same tolerated pressure without any gradient-factor shrink: the
/// plain Buhlmann line `(s - a) * b`.
pub open spec fn spec_buhlmann_tolerated(pn: int, ph: int, v: Variant, i: int) -> int {
    let s = pn + ph;
    let a = spec_weighted_a(pn, ph, v, i);
    let b = spec_weighted_b(pn, ph, v, i);
    if s <= a {
        0
    } else {
        (s - a) * b / 10_000
    }
}

/// Largest tolerated pressure among the first `n` compartments.
pub open spec fn spec_max_tolerated(n2: Seq<int>, he: Seq<int>, v: Variant, g: int, n: nat) -> int
    decreases n,
{
    if n == 0 {
        0
    } else {
        let prev = spec_max_tolerated(n2, he, v, g, (n - 1) as nat);
        let cur = spec_tolerated(n2[n - 1], he[n - 1], v, n - 1, g);
        if cur > prev {
            cur
        } else {
            prev
        }
    }
}

/// The ceiling of a whole state: the largest tolerated ambient pressure
/// over all sixteen compartments, in nanobar, floored at zero.
pub open spec fn spec_ceiling(n2: Seq<int>, he: Seq<int>, v: Variant, g: int) -> int {
    spec_max_tolerated(n2, he, v, g, COMPARTMENT_COUNT as nat)
}

/// Gradient factor in force at `depth_m` during the ascent, in percent:
/// `low` at the first stop depth rising linearly to `high` at the
/// surface; `low` uniformly while no first stop is known.
pub open spec fn spec_gf_at(low: int, high: int, depth_m: int, first_stop_m: int) -> int {
    if first_stop_m <= 0 {
        low
    } else if depth_m >= first_stop_m {
        low
    } else {
        high - (high - low) * depth_m / first_stop_m
    }
}

/// Gradient factor in force, in executable form.
pub fn gf_at(low: u8, high: u8, depth_m: u32, first_stop_m: u32) -> (g: u8)
    requires
        low <= high,
        high <= 100,
    ensures
        g == spec_gf_at(low as int, high as int, depth_m as int, first_stop_m as int),
        low <= g <= high,
{
    if first_stop_m == 0 {
        low
    } else if depth_m >= first_stop_m {
        low
    } else {
        let span = (high - low) as u64;
        proof {
            assert(span * (depth_m as u64) <= (first_stop_m as u64) * span) by (nonlinear_arith)
                requires span >= 0, depth_m <= first_stop_m;
            assert(span * (depth_m as u64) <= 100 * 0xffff_ffffu64) by (nonlinear_arith)
                requires 0 <= span <= 100, 0 <= depth_m <= 0xffff_ffffu64;
            vstd::arithmetic::div_mod::lemma_div_pos_is_pos(
                (span * (depth_m as u64)) as int,
                first_stop_m as int,
            );
            vstd::arithmetic::div_mod::lemma_multiply_divide_le(
                (span * (depth_m as u64)) as int,
                first_stop_m as int,
                span as int,
            );
        }
        let shrink = (span * (depth_m as u64)) / (first_stop_m as u64);
        high - (shrink as u8)
    }
}

/// Ambient pressure one compartment tolerates, in executable form.
fn compartment_tolerated(pn: u64, ph: u64, v: Variant, i: usize, g: u8) -> (r: u64)
    requires
        1 <= pn <= MAX_PRESSURE_NANOBAR,
        ph <= MAX_PRESSURE_NANOBAR,
        i < COMPARTMENT_COUNT,
        g <= 100,
    ensures
        r == spec_tolerated(pn as int, ph as int, v, i as int, g as int),
        r <= TOLERATED_PRESSURE_BOUND,
{
    let s = pn + ph;
    let na = n2_a(v, i);
    let ha = he_a(v, i);
    let nb = n2_b(v, i);
    let hb = he_b(v, i);

    proof {
        assert((na as int) * (pn as int) <= 2_000_000_000int * 103_360_000_000int)
            by (nonlinear_arith)
            requires 0 <= na <= 2_000_000_000, 0 <= pn <= 103_360_000_000;
        assert((ha as int) * (ph as int) <= 2_000_000_000int * 103_360_000_000int)
            by (nonlinear_arith)
            requires 0 <= ha <= 2_000_000_000, 0 <= ph <= 103_360_000_000;
        assert((na as int) * (pn as int) >= 0) by (nonlinear_arith)
            requires na >= 0, pn >= 0;
        assert((ha as int) * (ph as int) >= 0) by (nonlinear_arith)
            requires ha >= 0, ph >= 0;
        assert((na as int) * (pn as int) + (ha as int) * (ph as int) <= (s as int)
            * 2_000_000_000) by (nonlinear_arith)
            requires
                0 < na <= 2_000_000_000,
                0 < ha <= 2_000_000_000,
                pn >= 0,
                ph >= 0,
                s == pn + ph,
        ;
        assert((na as int) * (pn as int) + (ha as int) * (ph as int) >= 0) by (nonlinear_arith)
            requires na >= 0, ha >= 0, pn >= 0, ph >= 0;
        vstd::arithmetic::div_mod::lemma_multiply_divide_le(
            (na as int) * (pn as int) + (ha as int) * (ph as int),
            s as int,
            2_000_000_000,
        );
        vstd::arithmetic::div_mod::lemma_div_pos_is_pos(
            (na as int) * (pn as int) + (ha as int) * (ph as int),
            s as int,
        );
    }
    let a_num: u128 = (na as u128) * (pn as u128) + (ha as u128) * (ph as u128);
    let a: u64 = (a_num / (s as u128)) as u64;

    proof {
        assert((nb as int) * (pn as int) <= 10_000int * 103_360_000_000int) by (nonlinear_arith)
            requires 0 <= nb <= 10_000, 0 <= pn <= 103_360_000_000;
        assert((hb as int) * (ph as int) <= 10_000int * 103_360_000_000int) by (nonlinear_arith)
            requires 0 <= hb <= 10_000, 0 <= ph <= 103_360_000_000;
        assert((nb as int) * (pn as int) >= 0) by (nonlinear_arith)
            requires nb >= 0, pn >= 0;
        assert((hb as int) * (ph as int) >= 0) by (nonlinear_arith)
            requires hb >= 0, ph >= 0;
        assert((nb as int) * (pn as int) + (hb as int) * (ph as int) <= (s as int) * 10_000)
            by (nonlinear_arith)
            requires
                0 < nb <= 10_000,
                0 < hb <= 10_000,
                pn >= 0,
                ph >= 0,
                s == pn + ph,
        ;
        assert((nb as int) * (pn as int) + (hb as int) * (ph as int) >= (s as int) * 4_000)
            by (nonlinear_arith)
            requires
                nb >= 4_000,
                hb >= 4_000,
                pn >= 0,
                ph >= 0,
                s == pn + ph,
        ;
        vstd::arithmetic::div_mod::lemma_multiply_divide_le(
            (nb as int) * (pn as int) + (hb as int) * (ph as int),
            s as int,
            10_000,
        );
        vstd::arithmetic::div_mod::lemma_div_is_ordered(
            (s as int) * 4_000,
            (nb as int) * (pn as int) + (hb as int) * (ph as int),
            s as int,
        );
        vstd::arithmetic::div_mod::lemma_div_multiples_vanish(4_000, s as int);
        assert((s as int) * 4_000 / (s as int) == 4_000) by {
            vstd::arithmetic::mul::lemma_mul_is_commutative(s as int, 4_000);
        }
    }
    let b_num: u64 = nb * pn + hb * ph;
    let b: u64 = b_num / s;
    proof {
        assert(4_000 <= b <= 10_000);
        assert((100 - g as int) * (b as int) >= (100 - g as int) * 4_000) by (nonlinear_arith)
            requires g <= 100, b >= 4_000;
    }

    proof {
        assert((s as int) * 100 * (b as int) <= 20_700_000_000_000int * 10_000) by (nonlinear_arith)
            requires
                0 < s <= 207_000_000_000,
                0 <= b <= 10_000,
        ;
        assert((a as int) * (g as int) * (b as int) <= 2_000_000_000int * 100 * 10_000)
            by (nonlinear_arith)
            requires
                0 <= a <= 2_000_000_000,
                0 <= g <= 100,
                0 <= b <= 10_000,
        ;
        assert((a as int) * (g as int) * (b as int) >= 0) by (nonlinear_arith)
            requires a >= 0, g >= 0, b >= 0;
        assert((a as int) * (g as int) <= 2_000_000_000int * 100) by (nonlinear_arith)
            requires 0 <= a <= 2_000_000_000, 0 <= g <= 100;
        assert((a as int) * (g as int) * (b as int) <= 200_000_000_000int * 10_000)
            by (nonlinear_arith)
            requires 0 <= a * g <= 200_000_000_000, 0 <= b <= 10_000;
        assert((100 - g as int) * (b as int) <= 100 * 10_000) by (nonlinear_arith)
            requires 0 <= g <= 100, 0 <= b <= 10_000;
        assert((100 - g as int) * (b as int) >= 0) by (nonlinear_arith)
            requires 0 <= g <= 100, 0 <= b;
    }
    let num_pos: u64 = (s * 100) * b;
    let shrink: u64 = (a * (g as u64)) * b;
    let den: u64 = (g as u64) * 10_000 + (100 - g as u64) * b;
    if num_pos <= shrink {
        proof {
            assert(spec_tolerated(pn as int, ph as int, v, i as int, g as int) == 0);
        }
        0
    } else {
        let num = num_pos - shrink;
        proof {
            assert(den >= 10_000);
            vstd::arithmetic::div_mod::lemma_div_pos_is_pos(num as int, den as int);
            vstd::arithmetic::div_mod::lemma_div_is_ordered_by_denominator(
                num as int,
                10_000,
                den as int,
            );
            vstd::arithmetic::div_mod::lemma_div_is_ordered(
                num as int,
                300_000_000_000_000_000int,
                10_000,
            );
        }
        num / den
    }
}

impl TissueState {
    /// The unrounded physiological ceiling under gradient factor `g`
    /// percent: the largest ambient pressure, in nanobar, that every
    /// compartment tolerates, floored at zero (the surface never binds).
    pub fn ceiling_pressure(&self, v: Variant, g: u8) -> (r: u64)
        requires
            self.wf(),
            g <= 100,
        ensures
            r == spec_ceiling(self.n2_model(), self.he_model(), v, g as int),
            r <= TOLERATED_PRESSURE_BOUND,
    {
        let mut best: u64 = 0;
        let mut i: usize = 0;
        while i < COMPARTMENT_COUNT
            invariant
                self.wf(),
                g <= 100,
                i <= COMPARTMENT_COUNT,
                best == spec_max_tolerated(self.n2_model(), self.he_model(), v, g as int, i as nat),
                best <= TOLERATED_PRESSURE_BOUND,
            decreases COMPARTMENT_COUNT - i,
        {
            let cur = compartment_tolerated(self.n2[i], self.he[i], v, i, g);
            if cur > best {
                best = cur;
            }
            i = i + 1;
        }
        best
    }
}

/// The ceiling pressure as a depth in millimetres (rounded down): the
/// shallowest depth to which ascent is currently permitted; zero when the
/// surface may be reached.
pub open spec fn spec_ceiling_depth_mm(c: int) -> int {
    if c <= SURFACE_PRESSURE_NANOBAR {
        0
    } else {
        (c - SURFACE_PRESSURE_NANOBAR) * 1000 / (NANOBAR_PER_METRE as int)
    }
}

/// Ceiling depth in millimetres, in executable form.
pub fn ceiling_depth_mm(c: u64) -> (r: u64)
    requires
        c <= TOLERATED_PRESSURE_BOUND,
    ensures
        r == spec_ceiling_depth_mm(c as int),
{
    if c <= SURFACE_PRESSURE_NANOBAR {
        0
    } else {
        ((c - SURFACE_PRESSURE_NANOBAR) * 1000) / NANOBAR_PER_METRE
    }
}

/// Largest plain-Buhlmann tolerated pressure among the first `n`
/// compartments.
pub open spec fn spec_buhlmann_max(n2: Seq<int>, he: Seq<int>, v: Variant, n: nat) -> int
    decreases n,
{
    if n == 0 {
        0
    } else {
        let prev = spec_buhlmann_max(n2, he, v, (n - 1) as nat);
        let cur = spec_buhlmann_tolerated(n2[n - 1], he[n - 1], v, n - 1);
        if cur > prev {
            cur
        } else {
            prev
        }
    }
}

/// The ceiling of a whole state without any gradient-factor shrink.
pub open spec fn spec_buhlmann_ceiling(n2: Seq<int>, he: Seq<int>, v: Variant) -> int {
    spec_buhlmann_max(n2, he, v, COMPARTMENT_COUNT as nat)
}

/// Under gradient factor 100 one compartment's tolerated pressure is the
/// plain Buhlmann value: no shrink is applied.
proof fn lemma_tolerated_full_gf(pn: int, ph: int, v: Variant, i: int)
    requires
        1 <= pn,
        0 <= ph,
    ensures
        spec_tolerated(pn, ph, v, i, 100) == spec_buhlmann_tolerated(pn, ph, v, i),
{
    lemma_table_bounds(v, i);
    let s = pn + ph;
    let na = spec_n2_a(v, i);
    let ha = spec_he_a(v, i);
    let nb = spec_n2_b(v, i);
    let hb = spec_he_b(v, i);
    let a = spec_weighted_a(pn, ph, v, i);
    let b = spec_weighted_b(pn, ph, v, i);
    assert(na * pn + ha * ph >= 0) by (nonlinear_arith)
        requires na > 0, ha > 0, pn >= 0, ph >= 0;
    vstd::arithmetic::div_mod::lemma_div_pos_is_pos(na * pn + ha * ph, s);
    assert(nb * pn + hb * ph >= s * 4_000) by (nonlinear_arith)
        requires nb >= 4_000, hb >= 4_000, pn >= 0, ph >= 0, s == pn + ph;
    vstd::arithmetic::div_mod::lemma_div_is_ordered(s * 4_000, nb * pn + hb * ph, s);
    assert(s * 4_000 / s == 4_000) by {
        vstd::arithmetic::mul::lemma_mul_is_commutative(s, 4_000);
        vstd::arithmetic::div_mod::lemma_div_multiples_vanish(4_000, s);
    }
    assert(b >= 4_000);
    let num = s * 100 * b - a * 100 * b;
    let x = (s - a) * b;
    assert(num == 100 * x) by (nonlinear_arith)
        requires num == s * 100 * b - a * 100 * b, x == (s - a) * b;
    let den = 100 * 10_000 + (100 - 100) * b;
    assert(den == 1_000_000);
    if s <= a {
        assert(x <= 0) by (nonlinear_arith)
            requires s <= a, b >= 0, x == (s - a) * b;
        assert(num <= 0);
    } else {
        assert(x >= 4_000) by (nonlinear_arith)
            requires s - a >= 1, b >= 4_000, x == (s - a) * b;
        assert(num > 0);
        assert(num / den == x / 10_000) by {
            vstd::arithmetic::div_mod::lemma_div_denominator(100 * x, 100, 10_000);
            vstd::arithmetic::mul::lemma_mul_is_commutative(100, x);
            vstd::arithmetic::div_mod::lemma_div_multiples_vanish(x, 100);
        }
    }
}

/// Gradient factor `low == high == 100` reproduces the unmodified
/// Buhlmann ceiling: no conservatism is added, at any depth and whatever
/// first stop is in force.
pub proof fn lemma_full_gradient_factor_is_buhlmann(
    n2: Seq<int>,
    he: Seq<int>,
    v: Variant,
    depth_m: int,
    first_stop_m: int,
)
    requires
        n2.len() == COMPARTMENT_COUNT,
        he.len() == COMPARTMENT_COUNT,
        forall|i: int| 0 <= i < COMPARTMENT_COUNT ==> 1 <= #[trigger] n2[i],
        forall|i: int| 0 <= i < COMPARTMENT_COUNT ==> 0 <= #[trigger] he[i],
    ensures
        spec_gf_at(100, 100, depth_m, first_stop_m) == 100,
        spec_ceiling(n2, he, v, 100) == spec_buhlmann_ceiling(n2, he, v),
{
    assert forall|n: nat| n <= COMPARTMENT_COUNT implies spec_max_tolerated(n2, he, v, 100, n)
        == spec_buhlmann_max(n2, he, v, n) by {
        lemma_max_tolerated_full_gf(n2, he, v, n);
    }
}

proof fn lemma_max_tolerated_full_gf(n2: Seq<int>, he: Seq<int>, v: Variant, n: nat)
    requires
        n <= COMPARTMENT_COUNT,
        n2.len() == COMPARTMENT_COUNT,
        he.len() == COMPARTMENT_COUNT,
        forall|i: int| 0 <= i < COMPARTMENT_COUNT ==> 1 <= #[trigger] n2[i],
        forall|i: int| 0 <= i < COMPARTMENT_COUNT ==> 0 <= #[trigger] he[i],
    ensures
        spec_max_tolerated(n2, he, v, 100, n) == spec_buhlmann_max(n2, he, v, n),
    decreases n,
{
    if n > 0 {
        lemma_max_tolerated_full_gf(n2, he, v, (n - 1) as nat);
        lemma_tolerated_full_gf(n2[n - 1], he[n - 1], v, n - 1);
    }
}

/// With no helium loaded, a compartment's tolerated pressure only grows
/// with its nitrogen pressure.
proof fn lemma_tolerated_monotone_n2(pn1: int, pn2: int, v: Variant, i: int, g: int)
    requires
        1 <= pn1 <= pn2,
        0 <= g <= 100,
    ensures
        spec_tolerated(pn1, 0, v, i, g) <= spec_tolerated(pn2, 0, v, i, g),
{
    lemma_table_bounds(v, i);
    let na = spec_n2_a(v, i);
    let nb = spec_n2_b(v, i);
    assert(spec_weighted_a(pn1, 0, v, i) == na && spec_weighted_b(pn1, 0, v, i) == nb) by {
        lemma_weighted_he_free(pn1, v, i);
    }
    assert(spec_weighted_a(pn2, 0, v, i) == na && spec_weighted_b(pn2, 0, v, i) == nb) by {
        lemma_weighted_he_free(pn2, v, i);
    }
    let num1 = pn1 * 100 * nb - na * g * nb;
    let num2 = pn2 * 100 * nb - na * g * nb;
    let den = g * 10_000 + (100 - g) * nb;
    assert(num1 <= num2) by (nonlinear_arith)
        requires pn1 <= pn2, nb >= 0, num1 == pn1 * 100 * nb - na * g * nb, num2 == pn2 * 100 * nb
            - na * g * nb;
    assert(den >= 10_000) by (nonlinear_arith)
        requires 0 <= g <= 100, nb >= 4_000, den == g * 10_000 + (100 - g) * nb;
    if num2 <= 0 {
    } else if num1 <= 0 {
        vstd::arithmetic::div_mod::lemma_div_pos_is_pos(num2, den);
    } else {
        vstd::arithmetic::div_mod::lemma_div_is_ordered(num1, num2, den);
    }
}

/// With no helium the weighted coefficients are the nitrogen ones.
proof fn lemma_weighted_he_free(pn: int, v: Variant, i: int)
    requires
        1 <= pn,
    ensures
        spec_weighted_a(pn, 0, v, i) == spec_n2_a(v, i),
        spec_weighted_b(pn, 0, v, i) == spec_n2_b(v, i),
{
    let na = spec_n2_a(v, i);
    let nb = spec_n2_b(v, i);
    assert(na * pn + spec_he_a(v, i) * 0 == pn * na) by (nonlinear_arith);
    assert(nb * pn + spec_he_b(v, i) * 0 == pn * nb) by (nonlinear_arith);
    vstd::arithmetic::div_mod::lemma_div_multiples_vanish(na as int, pn);
    vstd::arithmetic::div_mod::lemma_div_multiples_vanish(nb as int, pn);
}

/// With no helium loaded the whole ceiling only grows with the nitrogen
/// pressures.
proof fn lemma_max_tolerated_monotone(
    n2a: Seq<int>,
    n2b: Seq<int>,
    he: Seq<int>,
    v: Variant,
    g: int,
    n: nat,
)
    requires
        n <= COMPARTMENT_COUNT,
        n2a.len() == COMPARTMENT_COUNT,
        n2b.len() == COMPARTMENT_COUNT,
        he.len() == COMPARTMENT_COUNT,
        0 <= g <= 100,
        forall|i: int| 0 <= i < COMPARTMENT_COUNT ==> #[trigger] he[i] == 0,
        forall|i: int| 0 <= i < COMPARTMENT_COUNT ==> 1 <= #[trigger] n2a[i] <= n2b[i],
    ensures
        spec_max_tolerated(n2a, he, v, g, n) <= spec_max_tolerated(n2b, he, v, g, n),
    decreases n,
{
    if n > 0 {
        lemma_max_tolerated_monotone(n2a, n2b, he, v, g, (n - 1) as nat);
        lemma_tolerated_monotone_n2(n2a[n - 1], n2b[n - 1], v, n - 1, g);
    }
}

/// The nitrogen channels after `t` seconds at a constant inspired
/// pressure.
pub open spec fn spec_n2_after_const(n2: Seq<int>, target: int, v: Variant, t: nat) -> Seq<int> {
    Seq::new(n2.len(), |i: int| spec_run_const(n2[i], target, spec_n2_rate(v, i) as int, t))
}

/// While every compartment is off-gassing nitrogen at a constant depth on
/// a helium-free loading — the inspired nitrogen pressure at or below
/// each compartment's pressure — the ceiling never rises as time passes,
/// for any fixed gradient factor.
pub proof fn lemma_ceiling_nonincreasing_off_gassing(
    n2: Seq<int>,
    he: Seq<int>,
    target: int,
    v: Variant,
    g: int,
    t1: nat,
    t2: nat,
)
    requires
        n2.len() == COMPARTMENT_COUNT,
        he.len() == COMPARTMENT_COUNT,
        forall|i: int| 0 <= i < COMPARTMENT_COUNT ==> #[trigger] he[i] == 0,
        forall|i: int| 0 <= i < COMPARTMENT_COUNT ==> 1 <= #[trigger] n2[i],
        forall|i: int| 0 <= i < COMPARTMENT_COUNT ==> target <= #[trigger] n2[i],
        0 <= target,
        0 <= g <= 100,
        t1 <= t2,
    ensures
        spec_ceiling(spec_n2_after_const(n2, target, v, t2), he, v, g) <= spec_ceiling(
            spec_n2_after_const(n2, target, v, t1),
            he,
            v,
            g,
        ),
{
    let after1 = spec_n2_after_const(n2, target, v, t1);
    let after2 = spec_n2_after_const(n2, target, v, t2);
    assert forall|i: int| 0 <= i < COMPARTMENT_COUNT implies 1 <= #[trigger] after2[i]
        <= after1[i] by {
        lemma_table_bounds(v, i);
        lemma_run_const_bounds(n2[i], target, spec_n2_rate(v, i) as int, t1);
        lemma_run_const_bounds(n2[i], target, spec_n2_rate(v, i) as int, t2);
        lemma_run_const_monotone(n2[i], target, spec_n2_rate(v, i) as int, t1, t2);
    }
    lemma_max_tolerated_monotone(after2, after1, he, v, g, COMPARTMENT_COUNT as nat);
}

} // verus!
