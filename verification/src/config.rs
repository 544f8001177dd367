//! Decision-mode and network-family selectors of a simulation run, and the
//! parsers that read them from command-line words.

use vstd::prelude::*;
use vstd::string::*;

use crate::text::{
    case_variant, chars_equal, is_plain_word_char, lemma_case_variant_normalizes,
    lemma_plain_word_normal, list_items, normalize_word, normalized_chars, split_list,
};

verus! {

/// Decision-mechanism selector. The driver wires exactly one decision
/// mechanism. The three `rule_*` modes are the ablation axis: a 6-motive
/// softmax, a 4-motive (Knoll) collapse, and a 3-motive (Van Dyne) collapse.
#[derive(Debug, Clone, Copy, PartialEq, Eq, Structural)]
pub enum DecisionMode {
    /// LLM-driven six-motive assignment.
    Llm,
    /// Six-motive softmax ablation.
    Rule6dim,
    /// Collapse to Knoll's 4 forms.
    Rule4dim,
    /// Collapse to Van Dyne's 3 forms.
    Rule3dim,
}

impl DecisionMode {
    /// The stable lowercase label of the mode.
    pub open spec fn spec_label(self) -> Seq<char> {
        match self {
            DecisionMode::Llm => "llm"@,
            DecisionMode::Rule6dim => "rule_6dim"@,
            DecisionMode::Rule4dim => "rule_4dim"@,
            DecisionMode::Rule3dim => "rule_3dim"@,
        }
    }

    /// Effective motive dimensionality of the mode.
    pub open spec fn spec_n_dims(self) -> nat {
        match self {
            DecisionMode::Llm => 6,
            DecisionMode::Rule6dim => 6,
            DecisionMode::Rule4dim => 4,
            DecisionMode::Rule3dim => 3,
        }
    }

    /// Stable lowercase label (used in CSV / JSON / directory names).
    pub fn label(&self) -> (s: &'static str)
        ensures
            s@ == self.spec_label(),
    {
        match self {
            DecisionMode::Llm => "llm",
            DecisionMode::Rule6dim => "rule_6dim",
            DecisionMode::Rule4dim => "rule_4dim",
            DecisionMode::Rule3dim => "rule_3dim",
        }
    }

    /// Whether this mode reaches the LLM layer.
    pub fn is_llm(&self) -> (b: bool)
        ensures
            b == (*self == DecisionMode::Llm),
    {
        match self {
            DecisionMode::Llm => true,
            _ => false,
        }
    }

    /// Effective motive dimensionality for the rule modes (6 for LLM, which
    /// always emits a full six-motive vector).
    pub fn n_dims(&self) -> (n: usize)
        ensures
            n == self.spec_n_dims(),
    {
        match self {
            DecisionMode::Llm => 6,
            DecisionMode::Rule6dim => 6,
            DecisionMode::Rule4dim => 4,
            DecisionMode::Rule3dim => 3,
        }
    }
}

/// The mode a command-line word names, once trimmed and ASCII-lower-cased.
pub open spec fn decision_mode_named(s: Seq<char>) -> Option<DecisionMode> {
    let w = normalize_word(s);
    if w == "llm"@ || w == "ollama"@ || w == "openai"@ {
        Some(DecisionMode::Llm)
    } else if w == "rule_6dim"@ || w == "rule6dim"@ || w == "rule6"@ || w == "6dim"@ {
        Some(DecisionMode::Rule6dim)
    } else if w == "rule_4dim"@ || w == "rule4dim"@ || w == "rule4"@ || w == "4dim"@ {
        Some(DecisionMode::Rule4dim)
    } else if w == "rule_3dim"@ || w == "rule3dim"@ || w == "rule3"@ || w == "3dim"@ {
        Some(DecisionMode::Rule3dim)
    } else {
        None
    }
}

/// The message that rejects the decision-mode word `s`.
pub open spec fn decision_mode_error(s: Seq<char>) -> Seq<char> {
    "invalid decision-mode: \""@ + s + "\" (llm / rule_6dim / rule_4dim / rule_3dim)"@
}

/// Parse a [`DecisionMode`] from a CLI string.
pub fn parse_decision_mode(s: &str) -> (r: Result<DecisionMode, String>)
    ensures
        decision_mode_named(s@) matches Some(m) ==> r == Ok::<DecisionMode, String>(m),
        decision_mode_named(s@) is None ==> (r matches Err(e) && e@ == decision_mode_error(s@)),
{
    let w = normalized_chars(s);
    if chars_equal(&w, "llm") || chars_equal(&w, "ollama") || chars_equal(&w, "openai") {
        Ok(DecisionMode::Llm)
    } else if chars_equal(&w, "rule_6dim") || chars_equal(&w, "rule6dim") || chars_equal(
        &w,
        "rule6",
    ) || chars_equal(&w, "6dim") {
        Ok(DecisionMode::Rule6dim)
    } else if chars_equal(&w, "rule_4dim") || chars_equal(&w, "rule4dim") || chars_equal(
        &w,
        "rule4",
    ) || chars_equal(&w, "4dim") {
        Ok(DecisionMode::Rule4dim)
    } else if chars_equal(&w, "rule_3dim") || chars_equal(&w, "rule3dim") || chars_equal(
        &w,
        "rule3",
    ) || chars_equal(&w, "3dim") {
        Ok(DecisionMode::Rule3dim)
    } else {
        let mut e = "invalid decision-mode: \"".to_owned();
        e.append(s);
        e.append("\" (llm / rule_6dim / rule_4dim / rule_3dim)");
        Err(e)
    }
}

/// Inter-employee social-network family.
#[derive(Debug, Clone, Copy, PartialEq, Eq, Structural)]
pub enum NetworkKind {
    /// Watts–Strogatz small-world (the default).
    WattsStrogatz,
    /// Erdős–Rényi G(n,p) — sensitivity.
    ErdosRenyi,
    /// Barabási–Albert preferential attachment — sensitivity.
    BarabasiAlbert,
}

/// The network family a command-line word names, once trimmed and
/// ASCII-lower-cased.
pub open spec fn network_kind_named(s: Seq<char>) -> Option<NetworkKind> {
    let w = normalize_word(s);
    if w == "ws"@ || w == "watts-strogatz"@ || w == "small-world"@ {
        Some(NetworkKind::WattsStrogatz)
    } else if w == "er"@ || w == "erdos-renyi"@ || w == "erdos_renyi"@ {
        Some(NetworkKind::ErdosRenyi)
    } else if w == "ba"@ || w == "barabasi-albert"@ || w == "scale-free"@ {
        Some(NetworkKind::BarabasiAlbert)
    } else {
        None
    }
}

/// The message that rejects the network word `s`.
pub open spec fn network_kind_error(s: Seq<char>) -> Seq<char> {
    "invalid network kind: \""@ + s + "\" (watts-strogatz / erdos-renyi / barabasi-albert)"@
}

/// Parse a [`NetworkKind`] from a CLI string.
pub fn parse_network_kind(s: &str) -> (r: Result<NetworkKind, String>)
    ensures
        network_kind_named(s@) matches Some(k) ==> r == Ok::<NetworkKind, String>(k),
        network_kind_named(s@) is None ==> (r matches Err(e) && e@ == network_kind_error(s@)),
{
    let w = normalized_chars(s);
    if chars_equal(&w, "ws") || chars_equal(&w, "watts-strogatz") || chars_equal(
        &w,
        "small-world",
    ) {
        Ok(NetworkKind::WattsStrogatz)
    } else if chars_equal(&w, "er") || chars_equal(&w, "erdos-renyi") || chars_equal(
        &w,
        "erdos_renyi",
    ) {
        Ok(NetworkKind::ErdosRenyi)
    } else if chars_equal(&w, "ba") || chars_equal(&w, "barabasi-albert") || chars_equal(
        &w,
        "scale-free",
    ) {
        Ok(NetworkKind::BarabasiAlbert)
    } else {
        let mut e = "invalid network kind: \"".to_owned();
        e.append(s);
        e.append("\" (watts-strogatz / erdos-renyi / barabasi-albert)");
        Err(e)
    }
}

/// A mode's own label parses back to that mode:
/// `parse_decision_mode(m.label()) == Ok(m)`.
pub proof fn lemma_decision_mode_label_round_trip(m: DecisionMode)
    ensures
        decision_mode_named(m.spec_label()) == Some(m),
{
    reveal_strlit("llm");
    reveal_strlit("ollama");
    reveal_strlit("openai");
    reveal_strlit("rule_6dim");
    reveal_strlit("rule6dim");
    reveal_strlit("rule6");
    reveal_strlit("6dim");
    reveal_strlit("rule_4dim");
    reveal_strlit("rule4dim");
    reveal_strlit("rule4");
    reveal_strlit("4dim");
    reveal_strlit("rule_3dim");
    reveal_strlit("rule3dim");
    reveal_strlit("rule3");
    reveal_strlit("3dim");
    let s = m.spec_label();
    assert(forall|i: int| 0 <= i < s.len() ==> is_plain_word_char(#[trigger] s[i]));
    lemma_plain_word_normal(s);
    match m {
        DecisionMode::Llm => {},
        DecisionMode::Rule6dim => {
            assert(s != "llm"@ && s != "ollama"@ && s != "openai"@);
        },
        DecisionMode::Rule4dim => {
            assert(s[5] != "rule_6dim"@[5]);
            assert(s != "llm"@ && s != "ollama"@ && s != "openai"@);
            assert(s != "rule_6dim"@ && s != "rule6dim"@ && s != "rule6"@ && s != "6dim"@);
        },
        DecisionMode::Rule3dim => {
            assert(s[5] != "rule_6dim"@[5]);
            assert(s[5] != "rule_4dim"@[5]);
            assert(s != "llm"@ && s != "ollama"@ && s != "openai"@);
            assert(s != "rule_6dim"@ && s != "rule6dim"@ && s != "rule6"@ && s != "6dim"@);
            assert(s != "rule_4dim"@ && s != "rule4dim"@ && s != "rule4"@ && s != "4dim"@);
        },
    }
}

/// `normalize_word(s) == w` for a lower-case keyword `w` spelled in `s` up
/// to ASCII case.
proof fn lemma_keyword(s: Seq<char>, w: Seq<char>)
    requires
        case_variant(s, w),
        forall|i: int| 0 <= i < w.len() ==> is_plain_word_char(#[trigger] w[i]),
    ensures
        normalize_word(s) == w,
{
    lemma_case_variant_normalizes(s, w);
}

/// Every documented alias of a decision mode, in any ASCII case, names that
/// mode: `llm`, `ollama`, `openai` the LLM mode; `rule_6dim`, `rule6dim`,
/// `rule6`, `6dim` the six-motive rule; and likewise for 4 and 3.
pub proof fn lemma_decision_mode_aliases(s: Seq<char>)
    ensures
        case_variant(s, "llm"@) || case_variant(s, "ollama"@) || case_variant(s, "openai"@)
            ==> decision_mode_named(s) == Some(DecisionMode::Llm),
        case_variant(s, "rule_6dim"@) || case_variant(s, "rule6dim"@) || case_variant(
            s,
            "rule6"@,
        ) || case_variant(s, "6dim"@) ==> decision_mode_named(s) == Some(DecisionMode::Rule6dim),
        case_variant(s, "rule_4dim"@) || case_variant(s, "rule4dim"@) || case_variant(
            s,
            "rule4"@,
        ) || case_variant(s, "4dim"@) ==> decision_mode_named(s) == Some(DecisionMode::Rule4dim),
        case_variant(s, "rule_3dim"@) || case_variant(s, "rule3dim"@) || case_variant(
            s,
            "rule3"@,
        ) || case_variant(s, "3dim"@) ==> decision_mode_named(s) == Some(DecisionMode::Rule3dim),
{
    reveal_strlit("llm");
    reveal_strlit("ollama");
    reveal_strlit("openai");
    reveal_strlit("rule_6dim");
    reveal_strlit("rule6dim");
    reveal_strlit("rule6");
    reveal_strlit("6dim");
    reveal_strlit("rule_4dim");
    reveal_strlit("rule4dim");
    reveal_strlit("rule4");
    reveal_strlit("4dim");
    reveal_strlit("rule_3dim");
    reveal_strlit("rule3dim");
    reveal_strlit("rule3");
    reveal_strlit("3dim");
    let aliases: Seq<Seq<char>> = seq![
        "llm"@, "ollama"@, "openai"@, "rule_6dim"@, "rule6dim"@, "rule6"@, "6dim"@,
        "rule_4dim"@, "rule4dim"@, "rule4"@, "4dim"@, "rule_3dim"@, "rule3dim"@, "rule3"@,
        "3dim"@,
    ];
    assert forall|k: int| 0 <= k < aliases.len() && #[trigger] case_variant(s, aliases[k])
        implies normalize_word(s) == aliases[k] by {
        let a = aliases[k];
        assert(forall|i: int| 0 <= i < a.len() ==> is_plain_word_char(#[trigger] a[i]));
        lemma_keyword(s, a);
    }
    assert(aliases[0] == "llm"@);
    assert(aliases[1] == "ollama"@);
    assert(aliases[2] == "openai"@);
    assert(aliases[3] == "rule_6dim"@);
    assert(aliases[4] == "rule6dim"@);
    assert(aliases[5] == "rule6"@);
    assert(aliases[6] == "6dim"@);
    assert(aliases[7] == "rule_4dim"@);
    assert(aliases[8] == "rule4dim"@);
    assert(aliases[9] == "rule4"@);
    assert(aliases[10] == "4dim"@);
    assert(aliases[11] == "rule_3dim"@);
    assert(aliases[12] == "rule3dim"@);
    assert(aliases[13] == "rule3"@);
    assert(aliases[14] == "3dim"@);
    // Keywords of one length differ at the digit or the letter after it.
    assert("ollama"@[1] != "openai"@[1]);
    assert("rule_6dim"@[5] != "rule_4dim"@[5] && "rule_6dim"@[5] != "rule_3dim"@[5]);
    assert("rule_4dim"@[5] != "rule_3dim"@[5]);
    assert("rule6dim"@[4] != "rule4dim"@[4] && "rule6dim"@[4] != "rule3dim"@[4]);
    assert("rule4dim"@[4] != "rule3dim"@[4]);
    assert("rule6"@[4] != "rule4"@[4] && "rule6"@[4] != "rule3"@[4]);
    assert("rule4"@[4] != "rule3"@[4]);
    assert("6dim"@[0] != "4dim"@[0] && "6dim"@[0] != "3dim"@[0]);
    assert("4dim"@[0] != "3dim"@[0]);
}

/// Every documented alias of a network family, in any ASCII case, names
/// that family: `ws`, `watts-strogatz`, `small-world` Watts–Strogatz; `er`,
/// `erdos-renyi`, `erdos_renyi` Erdős–Rényi; `ba`, `barabasi-albert`,
/// `scale-free` Barabási–Albert.
pub proof fn lemma_network_kind_aliases(s: Seq<char>)
    ensures
        case_variant(s, "ws"@) || case_variant(s, "watts-strogatz"@) || case_variant(
            s,
            "small-world"@,
        ) ==> network_kind_named(s) == Some(NetworkKind::WattsStrogatz),
        case_variant(s, "er"@) || case_variant(s, "erdos-renyi"@) || case_variant(
            s,
            "erdos_renyi"@,
        ) ==> network_kind_named(s) == Some(NetworkKind::ErdosRenyi),
        case_variant(s, "ba"@) || case_variant(s, "barabasi-albert"@) || case_variant(
            s,
            "scale-free"@,
        ) ==> network_kind_named(s) == Some(NetworkKind::BarabasiAlbert),
{
    reveal_strlit("ws");
    reveal_strlit("watts-strogatz");
    reveal_strlit("small-world");
    reveal_strlit("er");
    reveal_strlit("erdos-renyi");
    reveal_strlit("erdos_renyi");
    reveal_strlit("ba");
    reveal_strlit("barabasi-albert");
    reveal_strlit("scale-free");
    let aliases: Seq<Seq<char>> = seq![
        "ws"@, "watts-strogatz"@, "small-world"@, "er"@, "erdos-renyi"@, "erdos_renyi"@,
        "ba"@, "barabasi-albert"@, "scale-free"@,
    ];
    assert forall|k: int| 0 <= k < aliases.len() && #[trigger] case_variant(s, aliases[k])
        implies normalize_word(s) == aliases[k] by {
        let a = aliases[k];
        assert(forall|i: int| 0 <= i < a.len() ==> is_plain_word_char(#[trigger] a[i]));
        lemma_keyword(s, a);
    }
    assert(aliases[0] == "ws"@);
    assert(aliases[1] == "watts-strogatz"@);
    assert(aliases[2] == "small-world"@);
    assert(aliases[3] == "er"@);
    assert(aliases[4] == "erdos-renyi"@);
    assert(aliases[5] == "erdos_renyi"@);
    assert(aliases[6] == "ba"@);
    assert(aliases[7] == "barabasi-albert"@);
    assert(aliases[8] == "scale-free"@);
    assert("ws"@[0] != "er"@[0] && "ws"@[0] != "ba"@[0] && "er"@[0] != "ba"@[0]);
    assert("small-world"@[0] != "erdos-renyi"@[0] && "small-world"@[0] != "erdos_renyi"@[0]);
}

/// Each mode's label and dimensionality: `llm` and `rule_6dim` work in six
/// motives, `rule_4dim` in four, `rule_3dim` in three.
pub proof fn lemma_decision_mode_table()
    ensures
        DecisionMode::Llm.spec_label() == "llm"@ && DecisionMode::Llm.spec_n_dims() == 6,
        DecisionMode::Rule6dim.spec_label() == "rule_6dim"@ && DecisionMode::Rule6dim.spec_n_dims()
            == 6,
        DecisionMode::Rule4dim.spec_label() == "rule_4dim"@ && DecisionMode::Rule4dim.spec_n_dims()
            == 4,
        DecisionMode::Rule3dim.spec_label() == "rule_3dim"@ && DecisionMode::Rule3dim.spec_n_dims()
            == 3,
{
}

/// Every mode works in six, four or three motive dimensions, and only the
/// LLM mode and the six-motive rule mode use all six.
pub proof fn lemma_decision_mode_dims(m: DecisionMode)
    ensures
        m.spec_n_dims() == 6 || m.spec_n_dims() == 4 || m.spec_n_dims() == 3,
        m.spec_n_dims() == 6 <==> (m == DecisionMode::Llm || m == DecisionMode::Rule6dim),
{
}

/// The first item of `items` that names no decision mode, if any.
pub open spec fn first_unnamed_mode(items: Seq<Seq<char>>, k: int) -> bool {
    &&& 0 <= k < items.len()
    &&& decision_mode_named(items[k]) is None
    &&& forall|j: int| 0 <= j < k ==> (#[trigger] decision_mode_named(items[j])) is Some
}

/// Parse a comma- or space-separated list of decision modes, in order; the
/// first item that names no mode is rejected with its message.
pub fn parse_decision_modes(s: &str) -> (r: Result<Vec<DecisionMode>, String>)
    ensures
        match r {
            Ok(v) => v@.len() == list_items(s@).len() && forall|i: int|
                0 <= i < v@.len() ==> decision_mode_named(list_items(s@)[i]) == Some(
                    #[trigger] v@[i],
                ),
            Err(e) => exists|k: int|
                first_unnamed_mode(list_items(s@), k) && e@ == decision_mode_error(
                    list_items(s@)[k],
                ),
        },
        (forall|i: int|
            0 <= i < list_items(s@).len() ==> (#[trigger] decision_mode_named(list_items(s@)[i]))
                is Some) ==> r is Ok,
{
    let items = split_list(s);
    let mut modes: Vec<DecisionMode> = Vec::new();
    let mut i: usize = 0;
    while i < items.len()
        invariant
            i <= items@.len(),
            items@.len() == list_items(s@).len(),
            forall|k: int| 0 <= k < items@.len() ==> #[trigger] items@[k]@ == list_items(s@)[k],
            modes@.len() == i,
            forall|j: int|
                0 <= j < i ==> decision_mode_named(list_items(s@)[j]) == Some(#[trigger] modes@[j]),
        decreases items@.len() - i,
    {
        match parse_decision_mode(items[i].as_str()) {
            Ok(m) => {
                modes.push(m);
            },
            Err(e) => {
                proof {
                    assert(items@[i as int]@ == list_items(s@)[i as int]);
                    assert forall|j: int| 0 <= j < i implies (#[trigger] decision_mode_named(
                        list_items(s@)[j],
                    )) is Some by {
                        assert(decision_mode_named(list_items(s@)[j]) == Some(modes@[j]));
                    }
                    assert(first_unnamed_mode(list_items(s@), i as int));
                }
                return Err(e);
            },
        }
        i = i + 1;
    }
    Ok(modes)
}

} // verus!
