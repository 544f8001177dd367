use brinsfield_silence_simulation::prompts::{MotiveSource, VerdictPlan};
use brinsfield_silence_simulation::reply::{
    motives_readable, plan_from_fields, voice_reply_plan, MotivesShape, ReplyFields,
};
use brinsfield_silence_simulation::world::Expression;

fn plan(expression: Expression, motives: MotiveSource, parse_failed: bool) -> VerdictPlan {
    VerdictPlan { expression, motives, parse_failed }
}

#[test]
fn parses_canonical_voice() {
    let (p, r) =
        voice_reply_plan(r#"{"decision": "voice", "motives": null, "rationale": "ok"}"#);
    assert_eq!(p, plan(Expression::Voice, MotiveSource::Uniform, false));
    assert_eq!(r, "ok");
}

#[test]
fn parses_silence_with_six_motives() {
    let (p, r) = voice_reply_plan(
        r#"{"decision":"silence","motives":{"ineffectual":0.5,"relational":0.1,
           "defensive":0.1,"diffident":0.1,"disengaged":0.1,"deviant":0.1},
           "rationale":"pointless"}"#,
    );
    assert_eq!(p, plan(Expression::Silence, MotiveSource::Parsed, false));
    assert_eq!(r, "pointless");
}

#[test]
fn tolerates_surrounding_text_and_array_motives() {
    let (p, r) = voice_reply_plan(
        r#"Sure: {"decision":"silence","motives":[0,0,1,0,0,0],"rationale":"fear"}. Done."#,
    );
    assert_eq!(p, plan(Expression::Silence, MotiveSource::Parsed, false));
    assert_eq!(r, "fear");
}

#[test]
fn unknown_decision_falls_back_uniform() {
    let (p, _) = voice_reply_plan(r#"{"decision":"???","motives":null}"#);
    assert_eq!(p, plan(Expression::Silence, MotiveSource::Uniform, true));
}

#[test]
fn reply_unknown_decision_keeps_rationale() {
    let (p, r) = voice_reply_plan(r#"{"decision":"???","motives":null,"rationale":"hm"}"#);
    assert_eq!(p, plan(Expression::Silence, MotiveSource::Uniform, true));
    assert_eq!(r, "hm");
}

#[test]
fn silence_without_motives_falls_back() {
    let (p, r) = voice_reply_plan(r#"{"decision":"silence","rationale":"x"}"#);
    assert_eq!(p, plan(Expression::Silence, MotiveSource::Uniform, true));
    assert_eq!(r, "x");
}

#[test]
fn no_json_falls_back() {
    let (p, r) = voice_reply_plan("no json here");
    assert_eq!(p, plan(Expression::Silence, MotiveSource::Uniform, true));
    assert_eq!(r, "");
}

#[test]
fn reply_with_undecodable_object_falls_back() {
    let (p, r) = voice_reply_plan(r#"{"decision": silence, "rationale": "x"}"#);
    assert_eq!(p, plan(Expression::Silence, MotiveSource::Uniform, true));
    assert_eq!(r, "");
}

#[test]
fn reply_decision_word_is_normalised() {
    let (p, _) = voice_reply_plan(r#"{"decision":"  Speak_Up "}"#);
    assert_eq!(p, plan(Expression::Voice, MotiveSource::Uniform, false));
}

#[test]
fn reply_motives_need_a_known_numeric_key_or_six_items() {
    let bad_key = r#"{"decision":"silent","motives":{"fearful":0.9}}"#;
    assert!(voice_reply_plan(bad_key).0.parse_failed);
    let text_value = r#"{"decision":"silent","motives":{"def":"high"}}"#;
    assert!(voice_reply_plan(text_value).0.parse_failed);
    let short_array = r#"{"decision":"withhold","motives":[1,0,0]}"#;
    assert!(voice_reply_plan(short_array).0.parse_failed);
    let prefix_key = r#"{"decision":"withhold","motives":{"ine":1}}"#;
    assert_eq!(
        voice_reply_plan(prefix_key).0,
        plan(Expression::Silence, MotiveSource::Parsed, false)
    );
}

#[test]
fn plan_from_decoded_fields() {
    let silent = ReplyFields {
        decision: Some("silence".to_string()),
        rationale: None,
        motives: MotivesShape::Object(vec![
            ("noise".to_string(), true),
            ("Deviant".to_string(), true),
        ]),
    };
    let (p, r) = plan_from_fields(Some(silent));
    assert_eq!(p, plan(Expression::Silence, MotiveSource::Parsed, false));
    assert_eq!(r, "");
    let (p, r) = plan_from_fields(None);
    assert_eq!(p, plan(Expression::Silence, MotiveSource::Uniform, true));
    assert_eq!(r, "");
}

#[test]
fn motives_readable_shapes() {
    assert!(motives_readable(&MotivesShape::Array(6)));
    assert!(!motives_readable(&MotivesShape::Array(5)));
    assert!(!motives_readable(&MotivesShape::Null));
    assert!(!motives_readable(&MotivesShape::Missing));
    assert!(!motives_readable(&MotivesShape::Other));
    assert!(!motives_readable(&MotivesShape::Object(vec![("rel".to_string(), false)])));
    assert!(motives_readable(&MotivesShape::Object(vec![("rel".to_string(), true)])));
}
