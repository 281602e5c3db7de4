//! Breathing-gas mixtures.

use vstd::prelude::*;
use crate::PlanError;
use crate::units::{NANOBAR_PER_METRE, SURFACE_PRESSURE_NANOBAR};

verus! {

/// An immutable breathing mixture, as percentages of oxygen and helium.
/// Nitrogen is the derived remainder, never stored.
#[derive(Clone, Copy, Debug, PartialEq, Eq, Structural)]
pub struct Gas {
    pub o2: u8,
    pub he: u8,
}

/// Highest partial pressure of oxygen tolerated during decompression,
/// in nanobar; the default ceiling for computed maximum operating depths.
pub const MAX_PPO2_DECO_NANOBAR: u64 = 1_600_000_000;

/// Greatest oxygen partial-pressure limit the library accepts, in
/// nanobar; keeps maximum-operating-depth arithmetic within u64.
pub const MAX_PPO2_LIMIT_NANOBAR: u64 = 10_000_000_000;

/// The depth at which a mixture with `o2` percent oxygen reaches the
/// partial-pressure ceiling `max_ppo2`, in whole metres (rounded down).
pub open spec fn spec_mod_depth(o2: int, max_ppo2: int) -> int {
    let limit = max_ppo2 * 100 / o2;
    if limit <= SURFACE_PRESSURE_NANOBAR {
        0
    } else {
        (limit - SURFACE_PRESSURE_NANOBAR) / (NANOBAR_PER_METRE as int)
    }
}

impl Gas {
    /// A mixture is physical when its fractions fit in [0,100] and sum,
    /// with the derived nitrogen remainder, to exactly 100.
    pub open spec fn valid(self) -> bool {
        self.o2 + self.he <= 100
    }

    pub open spec fn spec_o2(self) -> int {
        self.o2 as int
    }

    pub open spec fn spec_he(self) -> int {
        self.he as int
    }

    pub open spec fn spec_n2(self) -> int {
        100 - self.o2 - self.he
    }

    /// Validating factory: the only way to build a `Gas`.
    pub fn new(o2: u8, he: u8) -> (r: Result<Gas, PlanError>)
        ensures
            o2 + he <= 100 ==> r == Ok::<Gas, PlanError>(Gas { o2, he }),
            o2 + he > 100 ==> r == Err::<Gas, PlanError>(PlanError::InvalidComposition),
            r is Ok ==> r->Ok_0.valid(),
    {
        if o2 as u32 + he as u32 > 100 {
            Err(PlanError::InvalidComposition)
        } else {
            Ok(Gas { o2, he })
        }
    }

    pub fn o2_pct(&self) -> (r: u8)
        ensures
            r == self.spec_o2(),
    {
        self.o2
    }

    pub fn he_pct(&self) -> (r: u8)
        ensures
            r == self.spec_he(),
    {
        self.he
    }

    pub fn n2_pct(&self) -> (r: u8)
        requires
            self.valid(),
        ensures
            r == self.spec_n2(),
    {
        100 - self.o2 - self.he
    }

    /// Deepest depth at which the oxygen partial pressure of this mixture
    /// stays at or below `max_ppo2` nanobar.  Undefined for a mixture
    /// without oxygen.
    pub fn maximum_operating_depth(&self, max_ppo2: u64) -> (r: Result<u32, PlanError>)
        requires
            self.valid(),
            max_ppo2 <= MAX_PPO2_LIMIT_NANOBAR,
        ensures
            self.spec_o2() == 0 <==> r == Err::<u32, PlanError>(PlanError::DegenerateGas),
            self.spec_o2() > 0 ==> r == Ok::<u32, PlanError>(
                spec_mod_depth(self.spec_o2(), max_ppo2 as int) as u32,
            ),
    {
        if self.o2 == 0 {
            return Err(PlanError::DegenerateGas);
        }
        let limit = max_ppo2 * 100 / (self.o2 as u64);
        if limit <= SURFACE_PRESSURE_NANOBAR {
            Ok(0)
        } else {
            let d = (limit - SURFACE_PRESSURE_NANOBAR) / NANOBAR_PER_METRE;
            proof {
                assert(max_ppo2 * 100 <= MAX_PPO2_LIMIT_NANOBAR * 100) by (nonlinear_arith)
                    requires max_ppo2 <= MAX_PPO2_LIMIT_NANOBAR;
                assert(limit <= MAX_PPO2_LIMIT_NANOBAR * 100) by {
                    vstd::arithmetic::div_mod::lemma_div_is_ordered(
                        max_ppo2 * 100 as int,
                        (MAX_PPO2_LIMIT_NANOBAR * 100) as int,
                        self.o2 as int,
                    );
                    vstd::arithmetic::div_mod::lemma_div_multiples_vanish(
                        MAX_PPO2_LIMIT_NANOBAR as int * 100,
                        1,
                    );
                }
            }
            Ok(d as u32)
        }
    }
}

/// For every valid mixture the three channels are each within [0,100]
/// and sum to exactly 100.
pub proof fn lemma_gas_fractions_sum(g: Gas)
    requires
        g.valid(),
    ensures
        g.spec_o2() + g.spec_he() + g.spec_n2() == 100,
        0 <= g.spec_o2() <= 100,
        0 <= g.spec_he() <= 100,
        0 <= g.spec_n2() <= 100,
{
}

} // verus!
