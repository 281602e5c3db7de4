use decoplan::PlanError;
use decoplan::consumption::{mean_pressure, segment_volume_ml};
use decoplan::segment::{Segment, SegmentKind};

#[test]
fn bottom_segment_volume_exact() {
    // 10 minutes at 30 m, 20 l/min: 4.0708 bar * 10 min * 20 l/min
    // = 814.16 litres; in millilitres with exact truncation: 814_160
    let seg = Segment::new(SegmentKind::Bottom, 30, 30, 600).unwrap();
    assert_eq!(mean_pressure(&seg), 4_070_800_000);
    assert_eq!(segment_volume_ml(&seg, 20), 814_160);
}

#[test]
fn transit_uses_the_mean_pressure() {
    // descent 0 -> 30 m in 60 s: mean of 1 bar and 4.0708 bar
    let seg = Segment::new(SegmentKind::Transit, 0, 30, 60).unwrap();
    assert_eq!(mean_pressure(&seg), 2_535_400_000);
    assert_eq!(segment_volume_ml(&seg, 20), 50_700);
}

#[test]
fn zero_duration_contributes_nothing() {
    let seg = Segment::new(SegmentKind::Stop, 6, 6, 0).unwrap();
    assert_eq!(segment_volume_ml(&seg, 20), 0);
}

#[test]
fn volume_is_exactly_linear_in_sac() {
    let seg = Segment::new(SegmentKind::Stop, 6, 6, 540).unwrap();
    let unit = segment_volume_ml(&seg, 1);
    for sac in [0u32, 2, 7, 20, 1000] {
        assert_eq!(segment_volume_ml(&seg, sac), unit * sac as u64);
    }
}

#[test]
fn segment_factory_rejects_inconsistent_shapes() {
    assert_eq!(
        Segment::new(SegmentKind::Transit, 10, 10, 60).unwrap_err(),
        PlanError::InvalidSegment
    );
    assert_eq!(
        Segment::new(SegmentKind::Bottom, 10, 20, 60).unwrap_err(),
        PlanError::InvalidSegment
    );
    assert!(Segment::new(SegmentKind::Transit, 10, 20, 60).is_ok());
}
