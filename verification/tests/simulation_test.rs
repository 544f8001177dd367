use brinsfield_silence_simulation::config::DecisionMode;
use brinsfield_silence_simulation::simulation::{decision_mechanism, DecisionMechanism};

#[test]
fn rule_modes_wire_the_rule_mechanism() {
    for client in [false, true] {
        assert_eq!(
            decision_mechanism(DecisionMode::Rule6dim, client),
            Ok(DecisionMechanism::Rule { n_dims: 6 })
        );
        assert_eq!(
            decision_mechanism(DecisionMode::Rule4dim, client),
            Ok(DecisionMechanism::Rule { n_dims: 4 })
        );
        assert_eq!(
            decision_mechanism(DecisionMode::Rule3dim, client),
            Ok(DecisionMechanism::Rule { n_dims: 3 })
        );
    }
}

#[test]
fn llm_mode_needs_a_client() {
    assert_eq!(
        decision_mechanism(DecisionMode::Llm, true),
        Ok(DecisionMechanism::Llm)
    );
    assert_eq!(
        decision_mechanism(DecisionMode::Llm, false),
        Err("LLM decision mode selected but no client supplied".to_string())
    );
}
