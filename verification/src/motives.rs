//! The six Brinsfield (2013) silence motives and their canonical order.

use vstd::prelude::*;

use crate::text::{
    case_variant, chars_equal, is_plain_word_char, lemma_case_variant_normalizes,
    lemma_plain_word_normal, normalize_word, normalized_chars,
};

verus! {

/// The six Brinsfield motive labels in canonical order.
#[derive(Clone, Copy, PartialEq, Eq, Debug, Hash, Structural)]
pub enum MotiveLabel {
    Ineffectual,
    Relational,
    Defensive,
    Diffident,
    Disengaged,
    Deviant,
}

/// The label at canonical position `k` (`0 <= k < 6`); positions past the
/// end name the last label.
pub open spec fn label_at(k: int) -> MotiveLabel {
    if k <= 0 {
        MotiveLabel::Ineffectual
    } else if k == 1 {
        MotiveLabel::Relational
    } else if k == 2 {
        MotiveLabel::Defensive
    } else if k == 3 {
        MotiveLabel::Diffident
    } else if k == 4 {
        MotiveLabel::Disengaged
    } else {
        MotiveLabel::Deviant
    }
}

/// What [`MotiveLabel::parse`] returns for the text `s`: the label whose
/// name, or whose 3-letter prefix (`ine`, `rel`, `def`, `dif`, `dis`, `dev`),
/// equals `s` once trimmed and ASCII-lower-cased; `ineff` also names
/// ineffectual.
pub open spec fn parse_motive_label(s: Seq<char>) -> Option<MotiveLabel> {
    let w = normalize_word(s);
    if w == "ineffectual"@ || w == "ine"@ || w == "ineff"@ {
        Some(MotiveLabel::Ineffectual)
    } else if w == "relational"@ || w == "rel"@ {
        Some(MotiveLabel::Relational)
    } else if w == "defensive"@ || w == "def"@ {
        Some(MotiveLabel::Defensive)
    } else if w == "diffident"@ || w == "dif"@ {
        Some(MotiveLabel::Diffident)
    } else if w == "disengaged"@ || w == "dis"@ {
        Some(MotiveLabel::Disengaged)
    } else if w == "deviant"@ || w == "dev"@ {
        Some(MotiveLabel::Deviant)
    } else {
        None
    }
}

impl MotiveLabel {
    /// All six labels in canonical order.
    pub const ALL: [MotiveLabel; 6] = [
        MotiveLabel::Ineffectual,
        MotiveLabel::Relational,
        MotiveLabel::Defensive,
        MotiveLabel::Diffident,
        MotiveLabel::Disengaged,
        MotiveLabel::Deviant,
    ];

    /// Position of the label in canonical order.
    pub open spec fn spec_index(self) -> nat {
        match self {
            MotiveLabel::Ineffectual => 0,
            MotiveLabel::Relational => 1,
            MotiveLabel::Defensive => 2,
            MotiveLabel::Diffident => 3,
            MotiveLabel::Disengaged => 4,
            MotiveLabel::Deviant => 5,
        }
    }

    /// The stable lowercase name of the label.
    pub open spec fn spec_label(self) -> Seq<char> {
        match self {
            MotiveLabel::Ineffectual => "ineffectual"@,
            MotiveLabel::Relational => "relational"@,
            MotiveLabel::Defensive => "defensive"@,
            MotiveLabel::Diffident => "diffident"@,
            MotiveLabel::Disengaged => "disengaged"@,
            MotiveLabel::Deviant => "deviant"@,
        }
    }

    /// Stable lowercase label (CSV / JSON friendly).
    pub fn label(&self) -> (s: &'static str)
        ensures
            s@ == self.spec_label(),
    {
        match self {
            MotiveLabel::Ineffectual => "ineffectual",
            MotiveLabel::Relational => "relational",
            MotiveLabel::Defensive => "defensive",
            MotiveLabel::Diffident => "diffident",
            MotiveLabel::Disengaged => "disengaged",
            MotiveLabel::Deviant => "deviant",
        }
    }

    /// Index into 0..6 in canonical order.
    pub fn index(&self) -> (i: usize)
        ensures
            i == self.spec_index(),
            i < 6,
    {
        match self {
            MotiveLabel::Ineffectual => 0,
            MotiveLabel::Relational => 1,
            MotiveLabel::Defensive => 2,
            MotiveLabel::Diffident => 3,
            MotiveLabel::Disengaged => 4,
            MotiveLabel::Deviant => 5,
        }
    }

    /// Map a 0..6 index back to a label (canonical order); indices past the
    /// end give the last label.
    pub fn from_index(i: usize) -> (m: MotiveLabel)
        ensures
            m == label_at(i as int),
    {
        if i == 0 {
            MotiveLabel::Ineffectual
        } else if i == 1 {
            MotiveLabel::Relational
        } else if i == 2 {
            MotiveLabel::Defensive
        } else if i == 3 {
            MotiveLabel::Diffident
        } else if i == 4 {
            MotiveLabel::Disengaged
        } else {
            MotiveLabel::Deviant
        }
    }

    /// Parse a lowercase label (lenient: trims, ignores ASCII case, and
    /// accepts the 3-letter prefixes `ine`, `rel`, `def`, `dif`, `dis`,
    /// `dev`, as well as `ineff`).
    pub fn parse(s: &str) -> (m: Option<MotiveLabel>)
        ensures
            m == parse_motive_label(s@),
    {
        let w = normalized_chars(s);
        if chars_equal(&w, "ineffectual") || chars_equal(&w, "ine") || chars_equal(&w, "ineff") {
            Some(MotiveLabel::Ineffectual)
        } else if chars_equal(&w, "relational") || chars_equal(&w, "rel") {
            Some(MotiveLabel::Relational)
        } else if chars_equal(&w, "defensive") || chars_equal(&w, "def") {
            Some(MotiveLabel::Defensive)
        } else if chars_equal(&w, "diffident") || chars_equal(&w, "dif") {
            Some(MotiveLabel::Diffident)
        } else if chars_equal(&w, "disengaged") || chars_equal(&w, "dis") {
            Some(MotiveLabel::Disengaged)
        } else if chars_equal(&w, "deviant") || chars_equal(&w, "dev") {
            Some(MotiveLabel::Deviant)
        } else {
            None
        }
    }
}


/// Reading a label's name back gives the label: `parse(label(m)) == Some(m)`.
pub proof fn lemma_parse_label_round_trip(m: MotiveLabel)
    ensures
        parse_motive_label(m.spec_label()) == Some(m),
{
    reveal_strlit("ineffectual");
    reveal_strlit("ine");
    reveal_strlit("ineff");
    reveal_strlit("relational");
    reveal_strlit("rel");
    reveal_strlit("defensive");
    reveal_strlit("def");
    reveal_strlit("diffident");
    reveal_strlit("dif");
    reveal_strlit("disengaged");
    reveal_strlit("dis");
    reveal_strlit("deviant");
    reveal_strlit("dev");
    let s = m.spec_label();
    assert(forall|i: int| 0 <= i < s.len() ==> is_plain_word_char(#[trigger] s[i]));
    lemma_plain_word_normal(s);
}

/// Each label's name and its short forms, in any ASCII case, parse to that
/// label: `ineffectual`/`ine`/`ineff`, `relational`/`rel`, `defensive`/`def`,
/// `diffident`/`dif`, `disengaged`/`dis`, `deviant`/`dev`.
pub proof fn lemma_parse_label_any_case(s: Seq<char>)
    ensures
        case_variant(s, "ineffectual"@) || case_variant(s, "ine"@) || case_variant(s, "ineff"@)
            ==> parse_motive_label(s) == Some(MotiveLabel::Ineffectual),
        case_variant(s, "relational"@) || case_variant(s, "rel"@) ==> parse_motive_label(s)
            == Some(MotiveLabel::Relational),
        case_variant(s, "defensive"@) || case_variant(s, "def"@) ==> parse_motive_label(s)
            == Some(MotiveLabel::Defensive),
        case_variant(s, "diffident"@) || case_variant(s, "dif"@) ==> parse_motive_label(s)
            == Some(MotiveLabel::Diffident),
        case_variant(s, "disengaged"@) || case_variant(s, "dis"@) ==> parse_motive_label(s)
            == Some(MotiveLabel::Disengaged),
        case_variant(s, "deviant"@) || case_variant(s, "dev"@) ==> parse_motive_label(s)
            == Some(MotiveLabel::Deviant),
{
    reveal_strlit("ineffectual");
    reveal_strlit("ine");
    reveal_strlit("ineff");
    reveal_strlit("relational");
    reveal_strlit("rel");
    reveal_strlit("defensive");
    reveal_strlit("def");
    reveal_strlit("diffident");
    reveal_strlit("dif");
    reveal_strlit("disengaged");
    reveal_strlit("dis");
    reveal_strlit("deviant");
    reveal_strlit("dev");
    let words: Seq<Seq<char>> = seq![
        "ineffectual"@, "ine"@, "ineff"@, "relational"@, "rel"@, "defensive"@, "def"@,
        "diffident"@, "dif"@, "disengaged"@, "dis"@, "deviant"@, "dev"@,
    ];
    assert forall|k: int| 0 <= k < words.len() && #[trigger] case_variant(s, words[k])
        implies normalize_word(s) == words[k] by {
        let a = words[k];
        assert(forall|i: int| 0 <= i < a.len() ==> is_plain_word_char(#[trigger] a[i]));
        lemma_case_variant_normalizes(s, a);
    }
    assert(words[0] == "ineffectual"@);
    assert(words[1] == "ine"@);
    assert(words[2] == "ineff"@);
    assert(words[3] == "relational"@);
    assert(words[4] == "rel"@);
    assert(words[5] == "defensive"@);
    assert(words[6] == "def"@);
    assert(words[7] == "diffident"@);
    assert(words[8] == "dif"@);
    assert(words[9] == "disengaged"@);
    assert(words[10] == "dis"@);
    assert(words[11] == "deviant"@);
    assert(words[12] == "dev"@);
    // Words of one length differ early on.
    assert("ine"@[0] != "rel"@[0] && "ine"@[0] != "def"@[0] && "ine"@[0] != "dif"@[0]);
    assert("ine"@[0] != "dis"@[0] && "ine"@[0] != "dev"@[0] && "rel"@[0] != "def"@[0]);
    assert("rel"@[0] != "dif"@[0] && "rel"@[0] != "dis"@[0] && "rel"@[0] != "dev"@[0]);
    assert("def"@[1] != "dif"@[1] && "def"@[1] != "dis"@[1] && "def"@[2] != "dev"@[2]);
    assert("dif"@[2] != "dis"@[2] && "dif"@[1] != "dev"@[1] && "dis"@[1] != "dev"@[1]);
    assert("relational"@[0] != "disengaged"@[0]);
    assert("defensive"@[1] != "diffident"@[1]);
}

/// The canonical order and names: ineffectual, relational, defensive,
/// diffident, disengaged, deviant at positions 0 to 5.
pub proof fn lemma_canonical_order()
    ensures
        MotiveLabel::Ineffectual.spec_index() == 0 && MotiveLabel::Ineffectual.spec_label()
            == "ineffectual"@,
        MotiveLabel::Relational.spec_index() == 1 && MotiveLabel::Relational.spec_label()
            == "relational"@,
        MotiveLabel::Defensive.spec_index() == 2 && MotiveLabel::Defensive.spec_label()
            == "defensive"@,
        MotiveLabel::Diffident.spec_index() == 3 && MotiveLabel::Diffident.spec_label()
            == "diffident"@,
        MotiveLabel::Disengaged.spec_index() == 4 && MotiveLabel::Disengaged.spec_label()
            == "disengaged"@,
        MotiveLabel::Deviant.spec_index() == 5 && MotiveLabel::Deviant.spec_label()
            == "deviant"@,
        label_at(0) == MotiveLabel::Ineffectual && label_at(1) == MotiveLabel::Relational
            && label_at(2) == MotiveLabel::Defensive && label_at(3) == MotiveLabel::Diffident
            && label_at(4) == MotiveLabel::Disengaged && label_at(5) == MotiveLabel::Deviant,
        forall|k: int| k >= 5 ==> #[trigger] label_at(k) == MotiveLabel::Deviant,
{
}

/// Index and label are inverse: `from_index(index(m)) == m`, and every
/// position below six is the index of the label found there.
pub proof fn lemma_index_round_trip(m: MotiveLabel, k: int)
    ensures
        label_at(m.spec_index() as int) == m,
        0 <= k < 6 ==> label_at(k).spec_index() == k,
{
}

/// Distinct labels have distinct indices and distinct names.
pub proof fn lemma_labels_distinct(a: MotiveLabel, b: MotiveLabel)
    ensures
        a.spec_index() == b.spec_index() ==> a == b,
        a.spec_label() == b.spec_label() ==> a == b,
{
    if a.spec_label() == b.spec_label() {
        lemma_parse_label_round_trip(a);
        lemma_parse_label_round_trip(b);
    }
}

} // verus!
