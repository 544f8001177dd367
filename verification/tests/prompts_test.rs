use brinsfield_silence_simulation::prompts::{
    decision_expression, extract_json_object, motive_definition_block, silence_prompt, verdict_plan,
    MotiveSource, VerdictPlan, MOTIVE_DEFINITIONS,
};
use brinsfield_silence_simulation::world::Expression;

fn expected_block(version: u8) -> String {
    let mut out = String::new();
    for (name, def) in MOTIVE_DEFINITIONS {
        match version {
            1 => out.push_str(&format!("  - {name}: {def}\n")),
            2 => out.push_str(&format!(
                "  - {name} — {def}. Consider all six independently; fear is just one.\n"
            )),
            _ => out.push_str(&format!(
                "  - {name} — {def}. (Empirically, fear-based 'defensive' silence is the \
                 minority of cases; weigh the non-fear motives fairly.)\n"
            )),
        }
    }
    out
}

#[test]
fn definition_block_matches_each_version() {
    for v in [0u8, 1, 2, 3, 4, 255] {
        assert_eq!(motive_definition_block(v), expected_block(v), "version {v}");
    }
}

#[test]
fn definition_block_versions_differ() {
    let b1 = motive_definition_block(1);
    let b3 = motive_definition_block(3);
    assert_ne!(b1, b3);
    assert!(b1.contains("defensive"));
    assert!(b1.starts_with("  - ineffectual: speaking up would make no difference"));
    assert_eq!(b1.lines().count(), 6);
}

#[test]
fn extract_finds_first_object() {
    assert_eq!(
        extract_json_object(r#"Sure: {"decision":"silence","motives":[0,0,1,0,0,0],"rationale":"fear"}. Done."#),
        Some(r#"{"decision":"silence","motives":[0,0,1,0,0,0],"rationale":"fear"}"#.to_string())
    );
    assert_eq!(extract_json_object("a{b}c{d}"), Some("{b}".to_string()));
}

#[test]
fn extract_balances_nested_braces() {
    assert_eq!(
        extract_json_object(r#"x {"a": {"b": {}}, "c": 1} y}"#),
        Some(r#"{"a": {"b": {}}, "c": 1}"#.to_string())
    );
}

#[test]
fn extract_ignores_braces_in_strings() {
    assert_eq!(
        extract_json_object(r#"{"r": "a } b { c"} tail"#),
        Some(r#"{"r": "a } b { c"}"#.to_string())
    );
    assert_eq!(
        extract_json_object(r#"{"r": "say \"}\" now"}!"#),
        Some(r#"{"r": "say \"}\" now"}"#.to_string())
    );
    assert_eq!(
        extract_json_object(r#"{"r": "back\\"}z"#),
        Some(r#"{"r": "back\\"}"#.to_string())
    );
}

#[test]
fn extract_handles_non_ascii_text() {
    assert_eq!(
        extract_json_object("答え：{\"rationale\": \"怖い\"}。"),
        Some("{\"rationale\": \"怖い\"}".to_string())
    );
}

#[test]
fn extract_none_without_balanced_object() {
    assert_eq!(extract_json_object("no json here"), None);
    assert_eq!(extract_json_object(""), None);
    assert_eq!(extract_json_object("{\"a\": 1"), None);
    assert_eq!(extract_json_object("} {"), None);
    assert_eq!(extract_json_object("{\"a\": \"}\""), None);
}

#[test]
fn decision_words() {
    for w in ["voice", "Speak", " speak_up "] {
        assert_eq!(decision_expression(w), Some(Expression::Voice), "{w}");
    }
    for w in ["silence", "SILENT", "withhold\n"] {
        assert_eq!(decision_expression(w), Some(Expression::Silence), "{w}");
    }
    for w in ["???", "", "speak up", "neutral"] {
        assert_eq!(decision_expression(w), None, "{w}");
    }
}

#[test]
fn verdict_plan_table() {
    assert_eq!(
        verdict_plan(Some(Expression::Voice), true),
        VerdictPlan {
            expression: Expression::Voice,
            motives: MotiveSource::Uniform,
            parse_failed: false
        }
    );
    assert_eq!(
        verdict_plan(Some(Expression::Silence), true),
        VerdictPlan {
            expression: Expression::Silence,
            motives: MotiveSource::Parsed,
            parse_failed: false
        }
    );
    assert_eq!(
        verdict_plan(Some(Expression::Silence), false),
        VerdictPlan {
            expression: Expression::Silence,
            motives: MotiveSource::Uniform,
            parse_failed: true
        }
    );
    for parsed in [true, false] {
        for d in [None, Some(Expression::Neutral)] {
            assert_eq!(
                verdict_plan(d, parsed),
                VerdictPlan {
                    expression: Expression::Silence,
                    motives: MotiveSource::Uniform,
                    parse_failed: true
                }
            );
        }
    }
}

#[test]
fn extracted_object_extracts_to_itself() {
    let text = r#"pre {"a": {"b": "}"}} post"#;
    let o = extract_json_object(text).unwrap();
    assert_eq!(extract_json_object(&o), Some(o.clone()));
}

fn expected_prompt(context: &str, neigh_pct: f64, version: u8) -> String {
    let defs = expected_block(version);
    format!(
        "You are an employee at work. An ethically or operationally important \
         issue has arisen and you must decide whether to SPEAK UP (voice) or \
         REMAIN SILENT.\n\n\
         Your inner state:\n\
         {context}\n\
         Around you, {neigh_pct:.0}% of colleagues are currently silent.\n\n\
         If you remain silent, your reason may be a blend of these six motives:\n\
         {defs}\n\n\
         Reply with a SINGLE JSON object on one line:\n\
         {{\"decision\": \"voice\" | \"silence\", \
            \"motives\": {{\"ineffectual\": p1, \"relational\": p2, \"defensive\": p3, \
                          \"diffident\": p4, \"disengaged\": p5, \"deviant\": p6}}, \
            \"rationale\": \"short reason\"}}\n\
         Rules: if decision = voice, set \"motives\" to null. If decision = silence, \
         the six motive numbers must be non-negative and sum to about 1. Output JSON only."
    )
}

#[test]
fn silence_prompt_embeds_context_and_definitions() {
    let context = "  fear of consequences      f = 0.30\n";
    for (pct, version) in [(0.0, 1u8), (33.3333, 2), (100.0, 3)] {
        let p = silence_prompt(context, &format!("{pct:.0}"), version);
        assert_eq!(p, expected_prompt(context, pct, version));
    }
    let p1 = silence_prompt(context, "50", 1);
    let p3 = silence_prompt(context, "50", 3);
    assert_ne!(p1, p3);
    assert!(p1.contains("Around you, 50% of colleagues are currently silent."));
}
