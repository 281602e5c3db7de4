use decoplan::gas::Gas;
use decoplan::segment::{Segment, SegmentKind};
use decoplan::tables::Variant;
use decoplan::tissue::{SURFACE_N2_NANOBAR, TissueState};
use decoplan::units::inspired_pressure;

fn air() -> Gas {
    Gas::new(21, 0).unwrap()
}

#[test]
fn surface_equilibrium_loading() {
    let t = TissueState::surface_equilibrium();
    assert_eq!(t.n2.len(), 16);
    assert_eq!(t.he.len(), 16);
    for i in 0..16 {
        assert_eq!(t.n2[i], SURFACE_N2_NANOBAR);
        assert_eq!(t.he[i], 0);
    }
}

#[test]
fn zero_duration_exposure_is_a_no_op() {
    // the state after a zero-second segment is unchanged, bit for bit
    let mut t = TissueState::surface_equilibrium();
    t.expose_constant(30, 1500, air(), Variant::B);
    let n2_before = t.n2.clone();
    let he_before = t.he.clone();
    t.expose_constant(30, 0, air(), Variant::B);
    assert_eq!(t.n2, n2_before);
    assert_eq!(t.he, he_before);
    let seg = Segment::new(SegmentKind::Bottom, 30, 30, 0).unwrap();
    t.expose(seg, air(), Variant::B);
    assert_eq!(t.n2, n2_before);
    assert_eq!(t.he, he_before);
    t.expose_transit(30, 12, 0, air(), Variant::B);
    assert_eq!(t.n2, n2_before);
    assert_eq!(t.he, he_before);
}

#[test]
fn equilibrium_gas_keeps_the_state_at_equilibrium() {
    // breathing air at the surface: the inspired nitrogen pressure equals
    // the equilibrium loading, so even a very long exposure changes nothing
    let mut t = TissueState::surface_equilibrium();
    assert_eq!(inspired_pressure(0, 79), SURFACE_N2_NANOBAR);
    t.expose_constant(0, 360_000, air(), Variant::B);
    for i in 0..16 {
        assert_eq!(t.n2[i], SURFACE_N2_NANOBAR);
        assert_eq!(t.he[i], 0);
    }
}

#[test]
fn constant_exposure_converges_monotonically_without_overshoot() {
    // at 30 m on air every compartment climbs toward the inspired
    // pressure, never past it, and ever more slowly
    let target = inspired_pressure(30, 79);
    let mut t = TissueState::surface_equilibrium();
    let mut prev = t.n2.clone();
    for _round in 0..40 {
        t.expose_constant(30, 600, air(), Variant::B);
        for i in 0..16 {
            assert!(t.n2[i] >= prev[i], "compartment moved away from the target");
            assert!(t.n2[i] <= target, "compartment overshot the inspired pressure");
        }
        prev = t.n2.clone();
    }
    // after 400 minutes the fastest compartment is essentially saturated
    assert!(target - t.n2[0] < 1_000_000);
}

#[test]
fn faster_compartments_load_faster() {
    let mut t = TissueState::surface_equilibrium();
    t.expose_constant(30, 1200, air(), Variant::B);
    for i in 1..16 {
        assert!(
            t.n2[i - 1] >= t.n2[i],
            "a slower compartment loaded more than a faster one"
        );
    }
}

#[test]
fn transit_exposure_loads_less_than_bottom_exposure() {
    // a descent to 30 m loads tissue, but less than the same time spent at 30 m
    let mut descending = TissueState::surface_equilibrium();
    descending.expose_transit(0, 30, 60, air(), Variant::B);
    let mut parked = TissueState::surface_equilibrium();
    parked.expose_constant(30, 60, air(), Variant::B);
    for i in 0..16 {
        assert!(descending.n2[i] > SURFACE_N2_NANOBAR);
        assert!(descending.n2[i] < parked.n2[i]);
    }
}

#[test]
fn variants_differ_only_where_their_tables_differ() {
    // the two published coefficient sets share every compartment but the
    // first's half-lives
    let mut b = TissueState::surface_equilibrium();
    let mut c = TissueState::surface_equilibrium();
    b.expose_constant(30, 600, air(), Variant::B);
    c.expose_constant(30, 600, air(), Variant::C);
    assert!(c.n2[0] > b.n2[0], "the first compartment loads faster in variant C");
    for i in 1..16 {
        assert_eq!(b.n2[i], c.n2[i]);
    }
}

#[test]
fn snapshot_is_independent() {
    let mut t = TissueState::surface_equilibrium();
    t.expose_constant(30, 600, air(), Variant::B);
    let frozen = t.snapshot();
    let n2_at_snapshot = t.n2.clone();
    t.expose_constant(30, 600, air(), Variant::B);
    assert_eq!(frozen.n2, n2_at_snapshot);
    assert_ne!(frozen.n2, t.n2);
}
