use brinsfield_silence_simulation::calibration::{
    neuroticism_sign, psafety_sign, ALPHA_TARGET_BP, BASIS_POINTS_PER_UNIT,
    DEFENSIVE_SHARE_ANCHOR_BP, DEVIANT_CEILING_BP, INEFFECTUAL_FLOOR_BP, REFERENCE_MOTIVE_MIX_BP,
};
use brinsfield_silence_simulation::motives::MotiveLabel;

fn share(bp: u32) -> f64 {
    bp as f64 / BASIS_POINTS_PER_UNIT as f64
}

#[test]
fn reference_mix_is_normalised() {
    let s: f64 = REFERENCE_MOTIVE_MIX_BP.iter().map(|&b| share(b)).sum();
    assert!((s - 1.0).abs() < 1e-9, "reference mix sum = {s}");
}

#[test]
fn reference_mix_respects_anchors() {
    let mix = REFERENCE_MOTIVE_MIX_BP.map(share);
    let (anchor, floor, ceil) = (
        share(DEFENSIVE_SHARE_ANCHOR_BP),
        share(INEFFECTUAL_FLOOR_BP),
        share(DEVIANT_CEILING_BP),
    );
    assert!((mix[2] - anchor).abs() < 1e-9);
    assert!(mix[0] >= floor);
    assert!(mix[5] <= ceil);
}

#[test]
fn anchors_in_basis_points() {
    assert_eq!(DEFENSIVE_SHARE_ANCHOR_BP, 1265);
    assert_eq!(REFERENCE_MOTIVE_MIX_BP.iter().sum::<u32>(), 10_000);
    assert_eq!(ALPHA_TARGET_BP[MotiveLabel::Disengaged.index()], 8300);
}

#[test]
fn correlation_signs() {
    assert_eq!(psafety_sign(MotiveLabel::Defensive), -1);
    assert_eq!(psafety_sign(MotiveLabel::Diffident), -1);
    assert_eq!(psafety_sign(MotiveLabel::Relational), -1);
    assert_eq!(psafety_sign(MotiveLabel::Ineffectual), 0);
    assert_eq!(neuroticism_sign(MotiveLabel::Deviant), 1);
    assert_eq!(neuroticism_sign(MotiveLabel::Diffident), 1);
    assert_eq!(neuroticism_sign(MotiveLabel::Defensive), 0);
}
