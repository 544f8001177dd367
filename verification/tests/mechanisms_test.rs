use brinsfield_silence_simulation::mechanisms::{
    collapse_carrier, drains_knowledge, rule_mechanism_name,
};
use brinsfield_silence_simulation::motives::MotiveLabel;
use brinsfield_silence_simulation::world::Expression;

fn fold(p: [f64; 6], n_dims: usize) -> [f64; 6] {
    let mut out = [0.0; 6];
    for m in MotiveLabel::ALL {
        out[collapse_carrier(m, n_dims).index()] += p[m.index()];
    }
    out
}

#[test]
fn collapse_4dim_folds_into_knoll_carriers() {
    assert_eq!(collapse_carrier(MotiveLabel::Diffident, 4), MotiveLabel::Ineffectual);
    assert_eq!(collapse_carrier(MotiveLabel::Disengaged, 4), MotiveLabel::Relational);
    for m in [MotiveLabel::Ineffectual, MotiveLabel::Relational, MotiveLabel::Defensive, MotiveLabel::Deviant] {
        assert_eq!(collapse_carrier(m, 4), m);
    }
    let c = fold([0.2, 0.2, 0.2, 0.15, 0.15, 0.1], 4);
    assert_eq!(c[MotiveLabel::Diffident.index()], 0.0);
    assert_eq!(c[MotiveLabel::Disengaged.index()], 0.0);
    assert!((c[MotiveLabel::Ineffectual.index()] - 0.35).abs() < 1e-9);
}

#[test]
fn collapse_3dim_folds_into_van_dyne_carriers() {
    assert_eq!(collapse_carrier(MotiveLabel::Diffident, 3), MotiveLabel::Ineffectual);
    assert_eq!(collapse_carrier(MotiveLabel::Disengaged, 3), MotiveLabel::Ineffectual);
    assert_eq!(collapse_carrier(MotiveLabel::Deviant, 3), MotiveLabel::Defensive);
    for m in [MotiveLabel::Ineffectual, MotiveLabel::Relational, MotiveLabel::Defensive] {
        assert_eq!(collapse_carrier(m, 3), m);
    }
    let p = [0.2, 0.2, 0.2, 0.15, 0.15, 0.1];
    for dims in [3usize, 4, 6] {
        assert!((fold(p, dims).iter().sum::<f64>() - 1.0).abs() < 1e-9, "dims={dims}");
    }
}

#[test]
fn collapse_6dim_is_identity() {
    for m in MotiveLabel::ALL {
        assert_eq!(collapse_carrier(m, 6), m);
        assert_eq!(collapse_carrier(m, 5), m);
        assert_eq!(collapse_carrier(collapse_carrier(m, 3), 3), collapse_carrier(m, 3));
    }
}

#[test]
fn rule_names_follow_dimensionality() {
    assert_eq!(rule_mechanism_name(6), "voice_decision_rule_6dim");
    assert_eq!(rule_mechanism_name(4), "voice_decision_rule_4dim");
    assert_eq!(rule_mechanism_name(3), "voice_decision_rule_3dim");
    assert_eq!(rule_mechanism_name(7), "voice_decision_rule_6dim");
}

#[test]
fn knowledge_drain_is_ineffectual_or_disengaged_silence() {
    for m in MotiveLabel::ALL {
        let expected = matches!(m, MotiveLabel::Ineffectual | MotiveLabel::Disengaged);
        assert_eq!(drains_knowledge(Expression::Silence, m), expected);
        assert!(!drains_knowledge(Expression::Voice, m));
        assert!(!drains_knowledge(Expression::Neutral, m));
    }
}
