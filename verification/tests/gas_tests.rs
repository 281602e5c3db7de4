use decoplan::PlanError;
use decoplan::gas::{Gas, MAX_PPO2_DECO_NANOBAR};
use decoplan::units::{depth_pressure, inspired_pressure};

#[test]
fn gas_fractions_sum_to_100() {
    // every valid composition: o2 + he + n2 == 100 and each channel in [0, 100]
    let cases: [(u8, u8); 6] = [(21, 0), (100, 0), (0, 0), (10, 70), (50, 50), (18, 45)];
    for (o2, he) in cases {
        let g = Gas::new(o2, he).unwrap();
        let sum = g.o2_pct() as u32 + g.he_pct() as u32 + g.n2_pct() as u32;
        assert_eq!(sum, 100);
        assert!(g.o2_pct() <= 100);
        assert!(g.he_pct() <= 100);
        assert!(g.n2_pct() <= 100);
    }
}

#[test]
fn gas_rejects_overfull_mixture() {
    assert_eq!(Gas::new(70, 50).unwrap_err(), PlanError::InvalidComposition);
    assert_eq!(Gas::new(101, 0).unwrap_err(), PlanError::InvalidComposition);
    assert!(Gas::new(60, 40).is_ok());
}

#[test]
fn air_accessors() {
    let air = Gas::new(21, 0).unwrap();
    assert_eq!(air.o2_pct(), 21);
    assert_eq!(air.he_pct(), 0);
    assert_eq!(air.n2_pct(), 79);
}

#[test]
fn maximum_operating_depth_of_fifty_percent() {
    // limit = 1.6 bar * 100 / 50 = 3.2 bar; (2.2 bar) / (0.10236 bar/m) = 21.49 -> 21 m
    let g = Gas::new(50, 0).unwrap();
    assert_eq!(g.maximum_operating_depth(MAX_PPO2_DECO_NANOBAR).unwrap(), 21);
}

#[test]
fn maximum_operating_depth_of_pure_oxygen() {
    // limit = 1.6 bar; 0.6 bar of water = 5.86 m -> 5 m
    let g = Gas::new(100, 0).unwrap();
    assert_eq!(g.maximum_operating_depth(MAX_PPO2_DECO_NANOBAR).unwrap(), 5);
}

#[test]
fn maximum_operating_depth_undefined_without_oxygen() {
    let g = Gas::new(0, 0).unwrap();
    assert_eq!(
        g.maximum_operating_depth(MAX_PPO2_DECO_NANOBAR).unwrap_err(),
        PlanError::DegenerateGas
    );
}

#[test]
fn pressure_at_depth_is_linear_in_depth() {
    assert_eq!(depth_pressure(0), 1_000_000_000);
    assert_eq!(depth_pressure(30), 4_070_800_000);
    assert_eq!(depth_pressure(1000), 103_360_000_000);
}

#[test]
fn inspired_pressure_subtracts_water_vapour() {
    // air nitrogen at the surface: (1e9 - 62_570_000) * 79 / 100
    assert_eq!(inspired_pressure(0, 79), 740_569_700);
    // at 30 m: (4_070_800_000 - 62_570_000) * 79 / 100
    assert_eq!(inspired_pressure(30, 79), 3_166_501_700);
    assert_eq!(inspired_pressure(30, 0), 0);
}
