use brinsfield_silence_simulation::motives::MotiveLabel;

#[test]
fn label_round_trips() {
    for m in MotiveLabel::ALL {
        assert_eq!(MotiveLabel::from_index(m.index()), m);
        assert_eq!(MotiveLabel::parse(m.label()), Some(m));
    }
}

#[test]
fn index_follows_canonical_order() {
    for (i, m) in MotiveLabel::ALL.iter().enumerate() {
        assert_eq!(m.index(), i);
    }
}

#[test]
fn from_index_clamps_past_the_end() {
    assert_eq!(MotiveLabel::from_index(5), MotiveLabel::Deviant);
    assert_eq!(MotiveLabel::from_index(6), MotiveLabel::Deviant);
    assert_eq!(MotiveLabel::from_index(usize::MAX), MotiveLabel::Deviant);
    assert_eq!(MotiveLabel::from_index(0), MotiveLabel::Ineffectual);
}

#[test]
fn parse_accepts_short_forms_case_and_padding() {
    assert_eq!(MotiveLabel::parse("ineff"), Some(MotiveLabel::Ineffectual));
    assert_eq!(MotiveLabel::parse("ine"), Some(MotiveLabel::Ineffectual));
    assert_eq!(MotiveLabel::parse(" INE "), Some(MotiveLabel::Ineffectual));
    assert_eq!(MotiveLabel::parse("REL"), Some(MotiveLabel::Relational));
    assert_eq!(MotiveLabel::parse("  Def \n"), Some(MotiveLabel::Defensive));
    assert_eq!(MotiveLabel::parse("dif"), Some(MotiveLabel::Diffident));
    assert_eq!(MotiveLabel::parse("\tDIS"), Some(MotiveLabel::Disengaged));
    assert_eq!(MotiveLabel::parse("Deviant"), Some(MotiveLabel::Deviant));
}

#[test]
fn parse_rejects_unknown_words() {
    assert_eq!(MotiveLabel::parse(""), None);
    assert_eq!(MotiveLabel::parse("fear"), None);
    assert_eq!(MotiveLabel::parse("de f"), None);
    assert_eq!(MotiveLabel::parse("defensiveness"), None);
    // Only ASCII letters are folded: a dotted capital I stays as it is.
    assert_eq!(MotiveLabel::parse("DEFENSİVE"), None);
}

#[test]
fn parse_trims_unicode_white_space() {
    assert_eq!(MotiveLabel::parse("\u{3000}rel\u{a0}"), Some(MotiveLabel::Relational));
    assert_eq!(MotiveLabel::parse("\u{2003}dev\u{2028}"), Some(MotiveLabel::Deviant));
}

#[test]
fn labels_are_lowercase_names() {
    let names: Vec<&str> = MotiveLabel::ALL.iter().map(|m| m.label()).collect();
    assert_eq!(
        names,
        vec!["ineffectual", "relational", "defensive", "diffident", "disengaged", "deviant"]
    );
}
