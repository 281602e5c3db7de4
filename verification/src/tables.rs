//! The fixed physiological constant tables: sixteen tissue compartments,
//! each with per-gas uptake rates (from the published half-lives) and
//! Buhlmann `a`/`b` coefficients, in two published variants.
//!
//! Rates are the fixed-point per-second form of the half-lives: a channel
//! moves toward its inspired pressure by `rate` parts per billion of the
//! remaining difference each second.

use vstd::prelude::*;

verus! {

/// Number of modeled tissue compartments.
pub const COMPARTMENT_COUNT: usize = 16;

/// The two published coefficient sets.  They differ only in the first
/// compartment's half-lives and in several nitrogen `a` values.
#[derive(Clone, Copy, Debug, PartialEq, Eq, Structural)]
pub enum Variant {
    B,
    C,
}

/// Compartment per-second nitrogen uptake rate, in parts per billion of the remaining gradient (derived from the nitrogen half-life in minutes).
pub open spec fn spec_n2_rate(v: Variant, i: int) -> u64 {
    match v {
        Variant::B => {
            if i == 0 {
                2307823
            } else if i == 1 {
                1443014
            } else if i == 2 {
                923769
            } else if i == 3 {
                624262
            } else if i == 4 {
                427777
            } else if i == 5 {
                301585
            } else if i == 6 {
                212730
            } else if i == 7 {
                150021
            } else if i == 8 {
                105980
            } else if i == 9 {
                79123
            } else if i == 10 {
                61776
            } else if i == 11 {
                48335
            } else if i == 12 {
                37876
            } else if i == 13 {
                29621
            } else if i == 14 {
                23197
            } else {
                18193
            }
        },
        Variant::C => {
            if i == 0 {
                2883947
            } else if i == 1 {
                1443014
            } else if i == 2 {
                923769
            } else if i == 3 {
                624262
            } else if i == 4 {
                427777
            } else if i == 5 {
                301585
            } else if i == 6 {
                212730
            } else if i == 7 {
                150021
            } else if i == 8 {
                105980
            } else if i == 9 {
                79123
            } else if i == 10 {
                61776
            } else if i == 11 {
                48335
            } else if i == 12 {
                37876
            } else if i == 13 {
                29621
            } else if i == 14 {
                23197
            } else {
                18193
            }
        },
    }
}


pub fn n2_rate(v: Variant, i: usize) -> (r: u64)
    ensures
        r == spec_n2_rate(v, i as int),
        1 <= r < 1_000_000_000,
{
    match v {
        Variant::B => {
            if i == 0 {
                2307823
            } else if i == 1 {
                1443014
            } else if i == 2 {
                923769
            } else if i == 3 {
                624262
            } else if i == 4 {
                427777
            } else if i == 5 {
                301585
            } else if i == 6 {
                212730
            } else if i == 7 {
                150021
            } else if i == 8 {
                105980
            } else if i == 9 {
                79123
            } else if i == 10 {
                61776
            } else if i == 11 {
                48335
            } else if i == 12 {
                37876
            } else if i == 13 {
                29621
            } else if i == 14 {
                23197
            } else {
                18193
            }
        },
        Variant::C => {
            if i == 0 {
                2883947
            } else if i == 1 {
                1443014
            } else if i == 2 {
                923769
            } else if i == 3 {
                624262
            } else if i == 4 {
                427777
            } else if i == 5 {
                301585
            } else if i == 6 {
                212730
            } else if i == 7 {
                150021
            } else if i == 8 {
                105980
            } else if i == 9 {
                79123
            } else if i == 10 {
                61776
            } else if i == 11 {
                48335
            } else if i == 12 {
                37876
            } else if i == 13 {
                29621
            } else if i == 14 {
                23197
            } else {
                18193
            }
        },
    }
}

/// Compartment per-second helium uptake rate, in parts per billion of the remaining gradient (derived from the helium half-life in minutes).
pub open spec fn spec_he_rate(v: Variant, i: int) -> u64 {
    match v {
        Variant::B => {
            if i == 0 {
                6126080
            } else if i == 1 {
                3818008
            } else if i == 2 {
                2444561
            } else if i == 3 {
                1651346
            } else if i == 4 {
                1130844
            } else if i == 5 {
                797503
            } else if i == 6 {
                562553
            } else if i == 7 {
                396776
            } else if i == 8 {
                280360
            } else if i == 9 {
                209300
            } else if i == 10 {
                163411
            } else if i == 11 {
                127869
            } else if i == 12 {
                100198
            } else if i == 13 {
                78361
            } else if i == 14 {
                61369
            } else {
                48128
            }
        },
        Variant::C => {
            if i == 0 {
                7621440
            } else if i == 1 {
                3818008
            } else if i == 2 {
                2444561
            } else if i == 3 {
                1651346
            } else if i == 4 {
                1130844
            } else if i == 5 {
                797503
            } else if i == 6 {
                562553
            } else if i == 7 {
                396776
            } else if i == 8 {
                280360
            } else if i == 9 {
                209300
            } else if i == 10 {
                163411
            } else if i == 11 {
                127869
            } else if i == 12 {
                100198
            } else if i == 13 {
                78361
            } else if i == 14 {
                61369
            } else {
                48128
            }
        },
    }
}


pub fn he_rate(v: Variant, i: usize) -> (r: u64)
    ensures
        r == spec_he_rate(v, i as int),
        1 <= r < 1_000_000_000,
{
    match v {
        Variant::B => {
            if i == 0 {
                6126080
            } else if i == 1 {
                3818008
            } else if i == 2 {
                2444561
            } else if i == 3 {
                1651346
            } else if i == 4 {
                1130844
            } else if i == 5 {
                797503
            } else if i == 6 {
                562553
            } else if i == 7 {
                396776
            } else if i == 8 {
                280360
            } else if i == 9 {
                209300
            } else if i == 10 {
                163411
            } else if i == 11 {
                127869
            } else if i == 12 {
                100198
            } else if i == 13 {
                78361
            } else if i == 14 {
                61369
            } else {
                48128
            }
        },
        Variant::C => {
            if i == 0 {
                7621440
            } else if i == 1 {
                3818008
            } else if i == 2 {
                2444561
            } else if i == 3 {
                1651346
            } else if i == 4 {
                1130844
            } else if i == 5 {
                797503
            } else if i == 6 {
                562553
            } else if i == 7 {
                396776
            } else if i == 8 {
                280360
            } else if i == 9 {
                209300
            } else if i == 10 {
                163411
            } else if i == 11 {
                127869
            } else if i == 12 {
                100198
            } else if i == 13 {
                78361
            } else if i == 14 {
                61369
            } else {
                48128
            }
        },
    }
}

/// Compartment nitrogen Buhlmann `a` coefficient, in nanobar.
pub open spec fn spec_n2_a(v: Variant, i: int) -> u64 {
    match v {
        Variant::B => {
            if i == 0 {
                1169600000
            } else if i == 1 {
                1000000000
            } else if i == 2 {
                861800000
            } else if i == 3 {
                756200000
            } else if i == 4 {
                666700000
            } else if i == 5 {
                560000000
            } else if i == 6 {
                494700000
            } else if i == 7 {
                450000000
            } else if i == 8 {
                418700000
            } else if i == 9 {
                379800000
            } else if i == 10 {
                349700000
            } else if i == 11 {
                322300000
            } else if i == 12 {
                285000000
            } else if i == 13 {
                273700000
            } else if i == 14 {
                252300000
            } else {
                232700000
            }
        },
        Variant::C => {
            if i == 0 {
                1259900000
            } else if i == 1 {
                1000000000
            } else if i == 2 {
                861800000
            } else if i == 3 {
                756200000
            } else if i == 4 {
                620000000
            } else if i == 5 {
                504300000
            } else if i == 6 {
                441000000
            } else if i == 7 {
                400000000
            } else if i == 8 {
                375000000
            } else if i == 9 {
                350000000
            } else if i == 10 {
                329500000
            } else if i == 11 {
                306500000
            } else if i == 12 {
                283500000
            } else if i == 13 {
                261000000
            } else if i == 14 {
                248000000
            } else {
                232700000
            }
        },
    }
}


pub fn n2_a(v: Variant, i: usize) -> (r: u64)
    ensures
        r == spec_n2_a(v, i as int),
        0 < r <= 2_000_000_000,
{
    match v {
        Variant::B => {
            if i == 0 {
                1169600000
            } else if i == 1 {
                1000000000
            } else if i == 2 {
                861800000
            } else if i == 3 {
                756200000
            } else if i == 4 {
                666700000
            } else if i == 5 {
                560000000
            } else if i == 6 {
                494700000
            } else if i == 7 {
                450000000
            } else if i == 8 {
                418700000
            } else if i == 9 {
                379800000
            } else if i == 10 {
                349700000
            } else if i == 11 {
                322300000
            } else if i == 12 {
                285000000
            } else if i == 13 {
                273700000
            } else if i == 14 {
                252300000
            } else {
                232700000
            }
        },
        Variant::C => {
            if i == 0 {
                1259900000
            } else if i == 1 {
                1000000000
            } else if i == 2 {
                861800000
            } else if i == 3 {
                756200000
            } else if i == 4 {
                620000000
            } else if i == 5 {
                504300000
            } else if i == 6 {
                441000000
            } else if i == 7 {
                400000000
            } else if i == 8 {
                375000000
            } else if i == 9 {
                350000000
            } else if i == 10 {
                329500000
            } else if i == 11 {
                306500000
            } else if i == 12 {
                283500000
            } else if i == 13 {
                261000000
            } else if i == 14 {
                248000000
            } else {
                232700000
            }
        },
    }
}

/// Compartment helium Buhlmann `a` coefficient, in nanobar.
pub open spec fn spec_he_a(v: Variant, i: int) -> u64 {
    match v {
        Variant::B => {
            if i == 0 {
                1618900000
            } else if i == 1 {
                1383000000
            } else if i == 2 {
                1191900000
            } else if i == 3 {
                1045800000
            } else if i == 4 {
                922000000
            } else if i == 5 {
                820500000
            } else if i == 6 {
                730500000
            } else if i == 7 {
                650200000
            } else if i == 8 {
                595000000
            } else if i == 9 {
                554500000
            } else if i == 10 {
                533300000
            } else if i == 11 {
                518900000
            } else if i == 12 {
                518100000
            } else if i == 13 {
                517600000
            } else if i == 14 {
                517200000
            } else {
                511900000
            }
        },
        Variant::C => {
            if i == 0 {
                1742400000
            } else if i == 1 {
                1383000000
            } else if i == 2 {
                1191900000
            } else if i == 3 {
                1045800000
            } else if i == 4 {
                922000000
            } else if i == 5 {
                820500000
            } else if i == 6 {
                730500000
            } else if i == 7 {
                650200000
            } else if i == 8 {
                595000000
            } else if i == 9 {
                554500000
            } else if i == 10 {
                533300000
            } else if i == 11 {
                518900000
            } else if i == 12 {
                518100000
            } else if i == 13 {
                517600000
            } else if i == 14 {
                517200000
            } else {
                511900000
            }
        },
    }
}


pub fn he_a(v: Variant, i: usize) -> (r: u64)
    ensures
        r == spec_he_a(v, i as int),
        0 < r <= 2_000_000_000,
{
    match v {
        Variant::B => {
            if i == 0 {
                1618900000
            } else if i == 1 {
                1383000000
            } else if i == 2 {
                1191900000
            } else if i == 3 {
                1045800000
            } else if i == 4 {
                922000000
            } else if i == 5 {
                820500000
            } else if i == 6 {
                730500000
            } else if i == 7 {
                650200000
            } else if i == 8 {
                595000000
            } else if i == 9 {
                554500000
            } else if i == 10 {
                533300000
            } else if i == 11 {
                518900000
            } else if i == 12 {
                518100000
            } else if i == 13 {
                517600000
            } else if i == 14 {
                517200000
            } else {
                511900000
            }
        },
        Variant::C => {
            if i == 0 {
                1742400000
            } else if i == 1 {
                1383000000
            } else if i == 2 {
                1191900000
            } else if i == 3 {
                1045800000
            } else if i == 4 {
                922000000
            } else if i == 5 {
                820500000
            } else if i == 6 {
                730500000
            } else if i == 7 {
                650200000
            } else if i == 8 {
                595000000
            } else if i == 9 {
                554500000
            } else if i == 10 {
                533300000
            } else if i == 11 {
                518900000
            } else if i == 12 {
                518100000
            } else if i == 13 {
                517600000
            } else if i == 14 {
                517200000
            } else {
                511900000
            }
        },
    }
}

/// Compartment nitrogen Buhlmann `b` coefficient, scaled by 10_000.
pub open spec fn spec_n2_b(v: Variant, i: int) -> u64 {
    match v {
        Variant::B => {
            if i == 0 {
                5578
            } else if i == 1 {
                6514
            } else if i == 2 {
                7222
            } else if i == 3 {
                7825
            } else if i == 4 {
                8126
            } else if i == 5 {
                8434
            } else if i == 6 {
                8693
            } else if i == 7 {
                8910
            } else if i == 8 {
                9092
            } else if i == 9 {
                9222
            } else if i == 10 {
                9319
            } else if i == 11 {
                9403
            } else if i == 12 {
                9477
            } else if i == 13 {
                9544
            } else if i == 14 {
                9602
            } else {
                9653
            }
        },
        Variant::C => {
            if i == 0 {
                5050
            } else if i == 1 {
                6514
            } else if i == 2 {
                7222
            } else if i == 3 {
                7825
            } else if i == 4 {
                8126
            } else if i == 5 {
                8434
            } else if i == 6 {
                8693
            } else if i == 7 {
                8910
            } else if i == 8 {
                9092
            } else if i == 9 {
                9222
            } else if i == 10 {
                9319
            } else if i == 11 {
                9403
            } else if i == 12 {
                9477
            } else if i == 13 {
                9544
            } else if i == 14 {
                9602
            } else {
                9653
            }
        },
    }
}


pub fn n2_b(v: Variant, i: usize) -> (r: u64)
    ensures
        r == spec_n2_b(v, i as int),
        4000 <= r <= 10_000,
{
    match v {
        Variant::B => {
            if i == 0 {
                5578
            } else if i == 1 {
                6514
            } else if i == 2 {
                7222
            } else if i == 3 {
                7825
            } else if i == 4 {
                8126
            } else if i == 5 {
                8434
            } else if i == 6 {
                8693
            } else if i == 7 {
                8910
            } else if i == 8 {
                9092
            } else if i == 9 {
                9222
            } else if i == 10 {
                9319
            } else if i == 11 {
                9403
            } else if i == 12 {
                9477
            } else if i == 13 {
                9544
            } else if i == 14 {
                9602
            } else {
                9653
            }
        },
        Variant::C => {
            if i == 0 {
                5050
            } else if i == 1 {
                6514
            } else if i == 2 {
                7222
            } else if i == 3 {
                7825
            } else if i == 4 {
                8126
            } else if i == 5 {
                8434
            } else if i == 6 {
                8693
            } else if i == 7 {
                8910
            } else if i == 8 {
                9092
            } else if i == 9 {
                9222
            } else if i == 10 {
                9319
            } else if i == 11 {
                9403
            } else if i == 12 {
                9477
            } else if i == 13 {
                9544
            } else if i == 14 {
                9602
            } else {
                9653
            }
        },
    }
}

/// Compartment helium Buhlmann `b` coefficient, scaled by 10_000.
pub open spec fn spec_he_b(v: Variant, i: int) -> u64 {
    match v {
        Variant::B => {
            if i == 0 {
                4770
            } else if i == 1 {
                5747
            } else if i == 2 {
                6527
            } else if i == 3 {
                7223
            } else if i == 4 {
                7582
            } else if i == 5 {
                7957
            } else if i == 6 {
                8279
            } else if i == 7 {
                8553
            } else if i == 8 {
                8757
            } else if i == 9 {
                8903
            } else if i == 10 {
                8997
            } else if i == 11 {
                9073
            } else if i == 12 {
                9122
            } else if i == 13 {
                9171
            } else if i == 14 {
                9217
            } else {
                9267
            }
        },
        Variant::C => {
            if i == 0 {
                4245
            } else if i == 1 {
                5747
            } else if i == 2 {
                6527
            } else if i == 3 {
                7223
            } else if i == 4 {
                7582
            } else if i == 5 {
                7957
            } else if i == 6 {
                8279
            } else if i == 7 {
                8553
            } else if i == 8 {
                8757
            } else if i == 9 {
                8903
            } else if i == 10 {
                8997
            } else if i == 11 {
                9073
            } else if i == 12 {
                9122
            } else if i == 13 {
                9171
            } else if i == 14 {
                9217
            } else {
                9267
            }
        },
    }
}


pub fn he_b(v: Variant, i: usize) -> (r: u64)
    ensures
        r == spec_he_b(v, i as int),
        4000 <= r <= 10_000,
{
    match v {
        Variant::B => {
            if i == 0 {
                4770
            } else if i == 1 {
                5747
            } else if i == 2 {
                6527
            } else if i == 3 {
                7223
            } else if i == 4 {
                7582
            } else if i == 5 {
                7957
            } else if i == 6 {
                8279
            } else if i == 7 {
                8553
            } else if i == 8 {
                8757
            } else if i == 9 {
                8903
            } else if i == 10 {
                8997
            } else if i == 11 {
                9073
            } else if i == 12 {
                9122
            } else if i == 13 {
                9171
            } else if i == 14 {
                9217
            } else {
                9267
            }
        },
        Variant::C => {
            if i == 0 {
                4245
            } else if i == 1 {
                5747
            } else if i == 2 {
                6527
            } else if i == 3 {
                7223
            } else if i == 4 {
                7582
            } else if i == 5 {
                7957
            } else if i == 6 {
                8279
            } else if i == 7 {
                8553
            } else if i == 8 {
                8757
            } else if i == 9 {
                8903
            } else if i == 10 {
                8997
            } else if i == 11 {
                9073
            } else if i == 12 {
                9122
            } else if i == 13 {
                9171
            } else if i == 14 {
                9217
            } else {
                9267
            }
        },
    }
}

/// Every table entry lies in the range the model's arithmetic relies on:
/// rates are positive and below one (in parts per billion), `a` values
/// are positive and at most two bar, `b` values lie in [4000, 10000].
pub proof fn lemma_table_bounds(v: Variant, i: int)
    ensures
        0 < spec_n2_rate(v, i) < 1_000_000_000,
        0 < spec_he_rate(v, i) < 1_000_000_000,
        0 < spec_n2_a(v, i) <= 2_000_000_000,
        0 < spec_he_a(v, i) <= 2_000_000_000,
        4_000 <= spec_n2_b(v, i) <= 10_000,
        4_000 <= spec_he_b(v, i) <= 10_000,
{
}

} // verus!
