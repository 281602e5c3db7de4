use decoplan::ceiling::{ceiling_depth_mm, gf_at};
use decoplan::gas::Gas;
use decoplan::planner::stop_depth_for;
use decoplan::tables::Variant;
use decoplan::tissue::TissueState;
use decoplan::units::SURFACE_PRESSURE_NANOBAR;

fn air() -> Gas {
    Gas::new(21, 0).unwrap()
}

#[test]
fn fresh_diver_has_no_ceiling() {
    let t = TissueState::surface_equilibrium();
    let c = t.ceiling_pressure(Variant::B, 100);
    assert!(c <= SURFACE_PRESSURE_NANOBAR);
    assert_eq!(stop_depth_for(c), 0);
}

#[test]
fn loaded_diver_has_a_ceiling() {
    let mut t = TissueState::surface_equilibrium();
    t.expose_constant(30, 25 * 60, air(), Variant::B);
    let c = t.ceiling_pressure(Variant::B, 100);
    assert!(c > SURFACE_PRESSURE_NANOBAR);
    let stop = stop_depth_for(c);
    assert!(stop >= 3 && stop % 3 == 0 && stop < 30);
}

#[test]
fn lower_gradient_factor_gives_deeper_ceiling() {
    let mut t = TissueState::surface_equilibrium();
    t.expose_constant(30, 25 * 60, air(), Variant::B);
    let relaxed = t.ceiling_pressure(Variant::B, 100);
    let conservative = t.ceiling_pressure(Variant::B, 50);
    assert!(conservative > relaxed);
}

#[test]
fn ceiling_never_rises_during_a_stop() {
    // off-gassing at a shallow stop after a loading dive: the ceiling is
    // monotonically non-increasing over time at a fixed gradient factor
    let mut t = TissueState::surface_equilibrium();
    t.expose_constant(30, 25 * 60, air(), Variant::B);
    let mut prev = t.ceiling_pressure(Variant::B, 100);
    for _ in 0..30 {
        t.expose_constant(3, 60, air(), Variant::B);
        let cur = t.ceiling_pressure(Variant::B, 100);
        assert!(cur <= prev, "ceiling rose during a decompression stop");
        prev = cur;
    }
}

#[test]
fn full_gradient_factor_is_identity() {
    // gradient factor 100/100 applies no shrink at any depth, whatever
    // first stop is in force
    for depth in [0u32, 3, 6, 15, 30] {
        for first_stop in [0u32, 3, 12, 30] {
            assert_eq!(gf_at(100, 100, depth, first_stop), 100);
        }
    }
}

#[test]
fn gradient_factor_interpolates_between_stops() {
    // no first stop known yet: the low bound applies uniformly
    assert_eq!(gf_at(30, 85, 40, 0), 30);
    // at or below the first stop: the low bound
    assert_eq!(gf_at(30, 85, 12, 12), 30);
    assert_eq!(gf_at(30, 85, 20, 12), 30);
    // half way up: 85 - (55 * 6) / 12 = 85 - 27 = 58
    assert_eq!(gf_at(30, 85, 6, 12), 58);
    // at the surface: the high bound
    assert_eq!(gf_at(30, 85, 0, 12), 85);
}

#[test]
fn ceiling_depth_is_reported_in_millimetres() {
    assert_eq!(ceiling_depth_mm(SURFACE_PRESSURE_NANOBAR), 0);
    assert_eq!(ceiling_depth_mm(1_307_080_000), 3_000);
    // half a bar above surface pressure: 4885.6 mm, rounded down
    assert_eq!(ceiling_depth_mm(1_500_000_000), 4_884);
}

#[test]
fn stop_depths_round_to_three_metre_multiples() {
    assert_eq!(stop_depth_for(SURFACE_PRESSURE_NANOBAR), 0);
    assert_eq!(stop_depth_for(SURFACE_PRESSURE_NANOBAR + 1), 3);
    // exactly three metres of water above surface pressure
    assert_eq!(stop_depth_for(1_307_080_000), 3);
    assert_eq!(stop_depth_for(1_307_080_001), 6);
    assert_eq!(stop_depth_for(1_614_160_000), 6);
}
