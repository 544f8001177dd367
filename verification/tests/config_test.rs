use brinsfield_silence_simulation::config::{
    parse_decision_mode, parse_decision_modes, parse_network_kind, DecisionMode, NetworkKind,
};

#[test]
fn parse_decision_mode_variants() {
    assert_eq!(parse_decision_mode("llm").unwrap(), DecisionMode::Llm);
    assert_eq!(
        parse_decision_mode("rule_6dim").unwrap(),
        DecisionMode::Rule6dim
    );
    assert_eq!(
        parse_decision_mode("rule4").unwrap(),
        DecisionMode::Rule4dim
    );
    assert_eq!(parse_decision_mode("3dim").unwrap(), DecisionMode::Rule3dim);
    assert!(parse_decision_mode("bogus").is_err());
}

#[test]
fn decision_mode_dims() {
    assert_eq!(DecisionMode::Rule6dim.n_dims(), 6);
    assert_eq!(DecisionMode::Rule4dim.n_dims(), 4);
    assert_eq!(DecisionMode::Rule3dim.n_dims(), 3);
    assert_eq!(DecisionMode::Llm.n_dims(), 6);
}

#[test]
fn parse_network_kind_variants() {
    assert_eq!(
        parse_network_kind("watts-strogatz").unwrap(),
        NetworkKind::WattsStrogatz
    );
    assert_eq!(parse_network_kind("ER").unwrap(), NetworkKind::ErdosRenyi);
    assert_eq!(
        parse_network_kind("ba").unwrap(),
        NetworkKind::BarabasiAlbert
    );
}

#[test]
fn decision_mode_labels_parse_back() {
    for m in [
        DecisionMode::Llm,
        DecisionMode::Rule6dim,
        DecisionMode::Rule4dim,
        DecisionMode::Rule3dim,
    ] {
        assert_eq!(parse_decision_mode(m.label()), Ok(m));
    }
    assert_eq!(DecisionMode::Rule4dim.label(), "rule_4dim");
}

#[test]
fn decision_mode_aliases() {
    for (s, m) in [
        ("ollama", DecisionMode::Llm),
        ("OpenAI", DecisionMode::Llm),
        ("rule6dim", DecisionMode::Rule6dim),
        ("rule6", DecisionMode::Rule6dim),
        (" 6DIM ", DecisionMode::Rule6dim),
        ("rule4dim", DecisionMode::Rule4dim),
        ("4dim", DecisionMode::Rule4dim),
        ("RULE_3DIM", DecisionMode::Rule3dim),
        ("rule3", DecisionMode::Rule3dim),
    ] {
        assert_eq!(parse_decision_mode(s), Ok(m), "{s}");
    }
}

#[test]
fn decision_mode_error_message_quotes_input() {
    assert_eq!(
        parse_decision_mode(" Bogus "),
        Err("invalid decision-mode: \" Bogus \" (llm / rule_6dim / rule_4dim / rule_3dim)"
            .to_string())
    );
}

#[test]
fn only_llm_mode_is_llm() {
    assert!(DecisionMode::Llm.is_llm());
    assert!(!DecisionMode::Rule6dim.is_llm());
    assert!(!DecisionMode::Rule4dim.is_llm());
    assert!(!DecisionMode::Rule3dim.is_llm());
}

#[test]
fn network_kind_aliases_and_error() {
    assert_eq!(parse_network_kind("ws"), Ok(NetworkKind::WattsStrogatz));
    assert_eq!(parse_network_kind("Small-World"), Ok(NetworkKind::WattsStrogatz));
    assert_eq!(parse_network_kind("erdos-renyi"), Ok(NetworkKind::ErdosRenyi));
    assert_eq!(parse_network_kind("erdos_renyi "), Ok(NetworkKind::ErdosRenyi));
    assert_eq!(parse_network_kind("barabasi-albert"), Ok(NetworkKind::BarabasiAlbert));
    assert_eq!(parse_network_kind("scale-free"), Ok(NetworkKind::BarabasiAlbert));
    assert_eq!(
        parse_network_kind("ring"),
        Err("invalid network kind: \"ring\" (watts-strogatz / erdos-renyi / barabasi-albert)"
            .to_string())
    );
}

#[test]
fn decision_mode_lists_parse_in_order() {
    assert_eq!(
        parse_decision_modes("rule_6dim,rule_4dim,rule_3dim"),
        Ok(vec![
            DecisionMode::Rule6dim,
            DecisionMode::Rule4dim,
            DecisionMode::Rule3dim
        ])
    );
    assert_eq!(
        parse_decision_modes(" llm,, 4dim  rule6 "),
        Ok(vec![
            DecisionMode::Llm,
            DecisionMode::Rule4dim,
            DecisionMode::Rule6dim
        ])
    );
    assert_eq!(parse_decision_modes(""), Ok(vec![]));
    assert_eq!(
        parse_decision_modes("rule4,bogus,nope"),
        Err("invalid decision-mode: \"bogus\" (llm / rule_6dim / rule_4dim / rule_3dim)"
            .to_string())
    );
}
