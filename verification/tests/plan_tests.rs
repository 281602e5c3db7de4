use decoplan::PlanError;
use decoplan::consumption::segment_volume_ml;
use decoplan::gas::Gas;
use decoplan::planner::{
    BottomLeg, DecoGas, DivePlan, GradientFactor, Settings, plan_dive,
};
use decoplan::segment::SegmentKind;
use decoplan::tables::Variant;

fn air() -> Gas {
    Gas::new(21, 0).unwrap()
}

fn default_settings() -> Settings {
    Settings {
        gf: GradientFactor::unmodified(),
        ascent_rate: 18,
        descent_rate: 30,
        sac_bottom: 20,
        sac_deco: 20,
        variant: Variant::B,
    }
}

fn single_leg(depth_m: u32, minutes: u32) -> Vec<BottomLeg> {
    vec![BottomLeg { depth_m, minutes, gas: air() }]
}

#[test]
fn empty_request_is_rejected() {
    let r = plan_dive(&Vec::new(), &Vec::new(), &default_settings());
    assert_eq!(r.unwrap_err(), PlanError::NoBottomSegments);
}

#[test]
fn zero_depth_is_rejected() {
    let r = plan_dive(&single_leg(0, 20), &Vec::new(), &default_settings());
    assert_eq!(r.unwrap_err(), PlanError::InvalidSegment);
}

#[test]
fn zero_time_is_rejected() {
    let r = plan_dive(&single_leg(30, 0), &Vec::new(), &default_settings());
    assert_eq!(r.unwrap_err(), PlanError::InvalidSegment);
}

#[test]
fn oxygen_free_deco_gas_without_override_is_rejected() {
    let dgs = vec![DecoGas { gas: Gas::new(0, 100).unwrap(), mod_override_m: None }];
    let r = plan_dive(&single_leg(30, 20), &dgs, &default_settings());
    assert_eq!(r.unwrap_err(), PlanError::DegenerateGas);
}

fn assert_depth_continuous(plan: &DivePlan) {
    let es = &plan.entries;
    assert!(es.len() >= 2);
    assert_eq!(es[0].segment.start_depth(), 0);
    assert_eq!(es[es.len() - 1].segment.end_depth(), 0);
    for w in es.windows(2) {
        assert_eq!(w[1].segment.start_depth(), w[0].segment.end_depth());
    }
}

#[test]
fn deco_dive_produces_a_stop() {
    // 30 m for 25 minutes on air, no conservatism: at least one mandatory
    // stop shallower than 30 m, so the runtime exceeds descent + bottom +
    // pure ascent
    let plan = plan_dive(&single_leg(30, 25), &Vec::new(), &default_settings()).unwrap();
    assert_depth_continuous(&plan);
    let stops: Vec<_> = plan
        .entries
        .iter()
        .filter(|e| e.segment.kind() == SegmentKind::Stop)
        .collect();
    assert!(!stops.is_empty(), "expected at least one decompression stop");
    for s in &stops {
        assert!(s.segment.end_depth() < 30);
        assert!(s.segment.duration_s() >= 60);
        assert_eq!(s.segment.duration_s() % 60, 0);
    }
    // runtime exceeds the bare descent + bottom + ascent
    let runtime: u64 = plan.entries.iter().map(|e| e.segment.duration_s() as u64).sum();
    let descent = 30 * 60 / 30;
    let bottom = 25 * 60;
    let ascent = 30 * 60 / 18;
    assert!(runtime > descent + bottom + ascent);
}

#[test]
fn no_stop_dive_ascends_directly() {
    // 15 m for 30 minutes on air is within no-stop limits
    let plan = plan_dive(&single_leg(15, 30), &Vec::new(), &default_settings()).unwrap();
    assert_depth_continuous(&plan);
    assert!(
        plan.entries.iter().all(|e| e.segment.kind() != SegmentKind::Stop),
        "expected a plan with no mandatory stops"
    );
    // descent, bottom, ascent to surface
    assert_eq!(plan.entries.len(), 3);
}

#[test]
fn deco_gas_switches_respect_maximum_operating_depth() {
    // a 45 m air dive with 50 percent oxygen on offer (maximum operating
    // depth 21 m): every leg breathed from it lies at 21 m or above, and
    // the gas is actually used
    let fifty = Gas::new(50, 0).unwrap();
    let dgs = vec![DecoGas { gas: fifty, mod_override_m: None }];
    let plan = plan_dive(&single_leg(45, 25), &dgs, &default_settings()).unwrap();
    assert_depth_continuous(&plan);
    let mut used = false;
    for e in &plan.entries {
        if e.gas == fifty {
            used = true;
            assert!(e.segment.start_depth() <= 21);
            assert!(e.segment.end_depth() <= 21);
        }
    }
    assert!(used, "the decompression gas was never selected");
}

#[test]
fn explicit_override_caps_the_switch_depth() {
    let fifty = Gas::new(50, 0).unwrap();
    let dgs = vec![DecoGas { gas: fifty, mod_override_m: Some(6) }];
    let plan = plan_dive(&single_leg(45, 25), &dgs, &default_settings()).unwrap();
    for e in &plan.entries {
        if e.gas == fifty {
            assert!(e.segment.start_depth() <= 6);
            assert!(e.segment.end_depth() <= 6);
        }
    }
}

#[test]
fn inconsistent_model_reports_unreachable_ceiling() {
    // breathing pure nitrogen with a gradient factor of zero the ceiling
    // can never reach the surface: the ascent search must give up rather
    // than loop forever
    let mut settings = default_settings();
    settings.gf = GradientFactor::new(0, 0);
    let nitrogen = Gas::new(0, 0).unwrap();
    let legs = vec![BottomLeg { depth_m: 30, minutes: 25, gas: nitrogen }];
    let r = plan_dive(&legs, &Vec::new(), &settings);
    assert_eq!(r.unwrap_err(), PlanError::UnreachableCeiling);
}

#[test]
fn consumption_is_additive_over_segments() {
    let settings = default_settings();
    let plan = plan_dive(&single_leg(30, 25), &Vec::new(), &settings).unwrap();
    let mut by_hand: u128 = 0;
    for e in &plan.entries {
        let sac = if e.segment.kind() == SegmentKind::Stop {
            settings.sac_deco
        } else {
            settings.sac_bottom
        };
        by_hand += segment_volume_ml(&e.segment, sac) as u128;
    }
    assert_eq!(plan.total_ml, by_hand);
    // a single-gas dive: the per-gas table has one row equal to the total
    assert_eq!(plan.gas_totals.len(), 1);
    assert_eq!(plan.gas_totals[0].0, air());
    assert_eq!(plan.gas_totals[0].1, plan.total_ml);
}

#[test]
fn consumption_scales_linearly_with_sac() {
    let lean = default_settings();
    let mut rich = default_settings();
    rich.sac_bottom = 40;
    rich.sac_deco = 40;
    let plan_lean = plan_dive(&single_leg(30, 25), &Vec::new(), &lean).unwrap();
    let plan_rich = plan_dive(&single_leg(30, 25), &Vec::new(), &rich).unwrap();
    assert_eq!(plan_rich.total_ml, 2 * plan_lean.total_ml);
}

#[test]
fn identical_requests_give_identical_plans() {
    // determinism: the same request planned twice is identical leg for leg
    let fifty = Gas::new(50, 0).unwrap();
    let legs = vec![
        BottomLeg { depth_m: 40, minutes: 20, gas: air() },
        BottomLeg { depth_m: 25, minutes: 10, gas: air() },
    ];
    let dgs = vec![DecoGas { gas: fifty, mod_override_m: None }];
    let mut settings = default_settings();
    settings.gf = GradientFactor::new(40, 85);
    let a = plan_dive(&legs, &dgs, &settings).unwrap();
    let b = plan_dive(&legs, &dgs, &settings).unwrap();
    assert_eq!(a.entries.len(), b.entries.len());
    for (x, y) in a.entries.iter().zip(b.entries.iter()) {
        assert_eq!(x, y);
    }
    assert_eq!(a.gas_totals, b.gas_totals);
    assert_eq!(a.total_ml, b.total_ml);
    assert_eq!(a.tissue.n2, b.tissue.n2);
    assert_eq!(a.tissue.he, b.tissue.he);
}

#[test]
fn bottom_legs_appear_in_order() {
    let legs = vec![
        BottomLeg { depth_m: 40, minutes: 20, gas: air() },
        BottomLeg { depth_m: 25, minutes: 10, gas: air() },
    ];
    let plan = plan_dive(&legs, &Vec::new(), &default_settings()).unwrap();
    let bottoms: Vec<_> = plan
        .entries
        .iter()
        .filter(|e| e.segment.kind() == SegmentKind::Bottom)
        .collect();
    assert_eq!(bottoms.len(), 2);
    assert_eq!(bottoms[0].segment.end_depth(), 40);
    assert_eq!(bottoms[0].segment.duration_s(), 20 * 60);
    assert_eq!(bottoms[1].segment.end_depth(), 25);
    assert_eq!(bottoms[1].segment.duration_s(), 10 * 60);
}

#[test]
fn conservative_gradient_factors_lengthen_the_dive() {
    let mut conservative = default_settings();
    conservative.gf = GradientFactor::new(30, 70);
    let relaxed_plan = plan_dive(&single_leg(30, 25), &Vec::new(), &default_settings()).unwrap();
    let conservative_plan = plan_dive(&single_leg(30, 25), &Vec::new(), &conservative).unwrap();
    let runtime = |p: &DivePlan| -> u64 {
        p.entries.iter().map(|e| e.segment.duration_s() as u64).sum()
    };
    assert!(runtime(&conservative_plan) > runtime(&relaxed_plan));
}
