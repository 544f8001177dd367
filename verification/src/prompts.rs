//! The text side of the LLM voice decision: the Brinsfield motive
//! definitions the prompt embeds, the JSON object the reply is read from,
//! and how the reply's decision word and motives settle the verdict.

use vstd::prelude::*;
use vstd::string::*;

use crate::motives::{label_at, MotiveLabel};
use crate::text::{
    case_variant, char_vec, chars_equal, is_plain_word_char, lemma_case_variant_normalizes,
    normalize_word, normalized_chars,
};
use crate::world::Expression;

verus! {

/// One-line operational definition per motive (used in every prompt
/// version), in canonical motive order.
pub const MOTIVE_DEFINITIONS: [(&'static str, &'static str); 6] = [
    ("ineffectual", "speaking up would make no difference — nothing ever changes"),
    ("relational", "staying silent to preserve relationships or spare others' feelings"),
    ("defensive", "staying silent out of fear of negative personal consequences"),
    ("diffident", "staying silent from a lack of confidence in oneself or one's view"),
    ("disengaged", "staying silent because of detachment or withdrawal from the issue"),
    ("deviant", "withholding to harm, sabotage, or gain at the organisation's expense"),
];

/// The prompt line that defines the `k`-th motive at a prompt version:
/// version 1 gives the bare name and gloss, version 2 stresses that fear is
/// one motive of six, and any later version adds that fear-based silence is
/// the minority of cases.
pub open spec fn definition_line(version: u8, k: int) -> Seq<char> {
    let name = MOTIVE_DEFINITIONS[k].0@;
    let def = MOTIVE_DEFINITIONS[k].1@;
    if version == 1 {
        "  - "@ + name + ": "@ + def + "\n"@
    } else if version == 2 {
        "  - "@ + name + " — "@ + def + ". Consider all six independently; fear is just one.\n"@
    } else {
        "  - "@ + name + " — "@ + def
            + ". (Empirically, fear-based 'defensive' silence is the minority of cases; weigh the non-fear motives fairly.)\n"@
    }
}

/// The definition lines of the first `k` motives, in canonical order.
pub open spec fn definition_block_prefix(version: u8, k: nat) -> Seq<char>
    decreases k,
{
    if k == 0 {
        Seq::empty()
    } else {
        definition_block_prefix(version, (k - 1) as nat) + definition_line(version, k - 1)
    }
}

/// The block of six motive definitions embedded in the prompt.
pub open spec fn definition_block(version: u8) -> Seq<char> {
    definition_block_prefix(version, 6)
}

/// The motive definitions block of the prompt, at prompt `version`
/// (1, 2, or 3 and above).
pub fn motive_definition_block(version: u8) -> (out: String)
    ensures
        out@ == definition_block(version),
{
    let mut out = String::new();
    let mut k: usize = 0;
    while k < 6
        invariant
            k <= 6,
            out@ == definition_block_prefix(version, k as nat),
        decreases 6 - k,
    {
        let (name, def) = MOTIVE_DEFINITIONS[k];
        let ghost before = out@;
        out.append("  - ");
        out.append(name);
        if version == 1 {
            out.append(": ");
            out.append(def);
            out.append("\n");
        } else if version == 2 {
            out.append(" — ");
            out.append(def);
            out.append(". Consider all six independently; fear is just one.\n");
        } else {
            out.append(" — ");
            out.append(def);
            out.append(
                ". (Empirically, fear-based 'defensive' silence is the minority of cases; weigh the non-fear motives fairly.)\n",
            );
        }
        proof {
            assert(out@ =~= before + definition_line(version, k as int));
        }
        k = k + 1;
    }
    out
}

/// Lexical state of a JSON scan: brace depth outside string literals,
/// whether a string literal is open, and whether an escape is pending.
pub open spec fn lex_step(st: (int, bool, bool), c: char) -> (int, bool, bool) {
    let (depth, in_str, esc) = st;
    if in_str {
        if esc {
            (depth, true, false)
        } else if c == '\\' {
            (depth, true, true)
        } else if c == '"' {
            (depth, false, false)
        } else {
            (depth, true, false)
        }
    } else if c == '"' {
        (depth, true, false)
    } else if c == '{' {
        (depth + 1, false, false)
    } else if c == '}' {
        (depth - 1, false, false)
    } else {
        st
    }
}

/// Lexical state after reading `s[start..i]` from a fresh state.
pub open spec fn lex_state(s: Seq<char>, start: int, i: int) -> (int, bool, bool)
    decreases i - start,
{
    if i <= start {
        (0, false, false)
    } else {
        lex_step(lex_state(s, start, i - 1), s[i - 1])
    }
}

/// `start` holds the first `{` of `s`.
pub open spec fn first_open_brace(s: Seq<char>, start: int) -> bool {
    &&& 0 <= start < s.len()
    &&& s[start] == '{'
    &&& forall|j: int| 0 <= j < start ==> s[j] != '{'
}

/// `end` holds the `}` that balances the `{` at `start`: the first position
/// after which the brace depth, counted outside string literals, is back to
/// zero.
pub open spec fn object_ends_at(s: Seq<char>, start: int, end: int) -> bool {
    &&& start <= end < s.len()
    &&& lex_state(s, start, end + 1).0 == 0
    &&& forall|j: int| start <= j < end ==> #[trigger] lex_state(s, start, j + 1).0 != 0
}

/// The first balanced `{...}` of `s`, if it has one: from its first `{` to
/// the `}` that closes it.
pub open spec fn spec_extracted_object(s: Seq<char>) -> Option<Seq<char>> {
    if exists|a: int, e: int| first_open_brace(s, a) && object_ends_at(s, a, e) {
        let (a, e) = choose|a: int, e: int| first_open_brace(s, a) && object_ends_at(s, a, e);
        Some(s.subrange(a, e + 1))
    } else {
        None
    }
}

/// Extract the first balanced `{...}` substring from `text`: from the first
/// `{` to the `}` that closes it, braces inside string literals not counted.
pub fn extract_json_object(text: &str) -> (r: Option<String>)
    ensures
        match r {
            Some(o) => exists|start: int, end: int|
                first_open_brace(text@, start) && object_ends_at(text@, start, end) && o@
                    == text@.subrange(start, end + 1),
            None => forall|start: int, end: int|
                first_open_brace(text@, start) ==> !object_ends_at(text@, start, end),
        },
        match r {
            Some(o) => spec_extracted_object(text@) == Some(o@),
            None => spec_extracted_object(text@) is None,
        },
{
    let cs = char_vec(text);
    let n = cs.len();
    let mut start: usize = 0;
    while start < n && cs[start] != '{'
        invariant
            n == cs@.len(),
            start <= n,
            forall|j: int| 0 <= j < start ==> cs@[j] != '{',
        decreases n - start,
    {
        start = start + 1;
    }
    if start == n {
        return None;
    }
    let mut depth: usize = 0;
    let mut in_str = false;
    let mut esc = false;
    let mut i: usize = start;
    while i < n
        invariant
            n == cs@.len(),
            cs@ == text@,
            first_open_brace(cs@, start as int),
            start <= i <= n,
            (depth as int, in_str, esc) == lex_state(cs@, start as int, i as int),
            depth <= i - start,
            !in_str ==> !esc,
            i > start ==> depth > 0,
            forall|j: int| start <= j < i ==> #[trigger] lex_state(cs@, start as int, j + 1).0 != 0,
        decreases n - i,
    {
        let c = cs[i];
        proof {
            assert(lex_state(cs@, start as int, i + 1) == lex_step(
                lex_state(cs@, start as int, i as int),
                c,
            ));
        }
        if in_str {
            if esc {
                esc = false;
            } else if c == '\\' {
                esc = true;
            } else if c == '"' {
                in_str = false;
            }
        } else if c == '"' {
            in_str = true;
        } else if c == '{' {
            depth = depth + 1;
        } else if c == '}' {
            proof {
                if i == start {
                    assert(cs@[start as int] == '{');
                }
            }
            depth = depth - 1;
            if depth == 0 {
                let o = text.substring_char(start, i + 1).to_owned();
                assert(object_ends_at(text@, start as int, i as int));
                proof {
                    lemma_extracted_object_is(text@, start as int, i as int);
                }
                return Some(o);
            }
        }
        i = i + 1;
    }
    proof {
        assert forall|st: int, end: int| first_open_brace(text@, st) implies !object_ends_at(
            text@,
            st,
            end,
        ) by {
            if first_open_brace(text@, st) && st != start {
                if st < start {
                    assert(text@[st] == '{');
                } else {
                    assert(text@[start as int] == '{');
                }
            }
            if object_ends_at(text@, st, end) {
                assert(lex_state(cs@, start as int, end + 1).0 != 0);
            }
        }
    }
    None
}

/// The voice-decision prompt around an employee's formatted inner state
/// `context`, the formatted percentage `silent_percent` of silent
/// colleagues, and the motive definitions block at `prompt_version`: the
/// situation, the state, the peers' silence, the six motives, and the JSON
/// reply format.
pub open spec fn spec_silence_prompt(context: Seq<char>, silent_percent: Seq<char>, prompt_version: u8) -> Seq<char> {
    "You are an employee at work. An ethically or operationally important issue has arisen and you must decide whether to SPEAK UP (voice) or REMAIN SILENT.\n\nYour inner state:\n"@
        + context + "\nAround you, "@ + silent_percent
        + "% of colleagues are currently silent.\n\nIf you remain silent, your reason may be a blend of these six motives:\n"@
        + definition_block(prompt_version)
        + "\n\nReply with a SINGLE JSON object on one line:\n{\"decision\": \"voice\" | \"silence\", \"motives\": {\"ineffectual\": p1, \"relational\": p2, \"defensive\": p3, \"diffident\": p4, \"disengaged\": p5, \"deviant\": p6}, \"rationale\": \"short reason\"}\nRules: if decision = voice, set \"motives\" to null. If decision = silence, the six motive numbers must be non-negative and sum to about 1. Output JSON only."@
}

/// Assemble the voice-decision prompt from the employee's formatted inner
/// state and the formatted percentage of silent colleagues.
pub fn silence_prompt(context: &str, silent_percent: &str, prompt_version: u8) -> (p: String)
    ensures
        p@ == spec_silence_prompt(context@, silent_percent@, prompt_version),
{
    let defs = motive_definition_block(prompt_version);
    let mut p = "You are an employee at work. An ethically or operationally important issue has arisen and you must decide whether to SPEAK UP (voice) or REMAIN SILENT.\n\nYour inner state:\n".to_owned();
    p.append(context);
    p.append("\nAround you, ");
    p.append(silent_percent);
    p.append(
        "% of colleagues are currently silent.\n\nIf you remain silent, your reason may be a blend of these six motives:\n",
    );
    p.append(defs.as_str());
    p.append(
        "\n\nReply with a SINGLE JSON object on one line:\n{\"decision\": \"voice\" | \"silence\", \"motives\": {\"ineffectual\": p1, \"relational\": p2, \"defensive\": p3, \"diffident\": p4, \"disengaged\": p5, \"deviant\": p6}, \"rationale\": \"short reason\"}\nRules: if decision = voice, set \"motives\" to null. If decision = silence, the six motive numbers must be non-negative and sum to about 1. Output JSON only.",
    );
    p
}

/// The expression a reply's decision word names, once trimmed and
/// ASCII-lower-cased: `voice`, `speak`, `speak_up` for VOICE; `silence`,
/// `silent`, `withhold` for SILENCE; anything else names none.
pub open spec fn decision_named(s: Seq<char>) -> Option<Expression> {
    let w = normalize_word(s);
    if w == "voice"@ || w == "speak"@ || w == "speak_up"@ {
        Some(Expression::Voice)
    } else if w == "silence"@ || w == "silent"@ || w == "withhold"@ {
        Some(Expression::Silence)
    } else {
        None
    }
}

/// Read the decision word of an LLM reply.
pub fn decision_expression(word: &str) -> (e: Option<Expression>)
    ensures
        e == decision_named(word@),
{
    let w = normalized_chars(word);
    if chars_equal(&w, "voice") || chars_equal(&w, "speak") || chars_equal(&w, "speak_up") {
        Some(Expression::Voice)
    } else if chars_equal(&w, "silence") || chars_equal(&w, "silent") || chars_equal(
        &w,
        "withhold",
    ) {
        Some(Expression::Silence)
    } else {
        None
    }
}

/// The decision words, in any ASCII case: `voice`, `speak`, `speak_up`
/// name VOICE; `silence`, `silent`, `withhold` name SILENCE.
pub proof fn lemma_decision_words_any_case(s: Seq<char>)
    ensures
        case_variant(s, "voice"@) || case_variant(s, "speak"@) || case_variant(s, "speak_up"@)
            ==> decision_named(s) == Some(Expression::Voice),
        case_variant(s, "silence"@) || case_variant(s, "silent"@) || case_variant(
            s,
            "withhold"@,
        ) ==> decision_named(s) == Some(Expression::Silence),
{
    reveal_strlit("voice");
    reveal_strlit("speak");
    reveal_strlit("speak_up");
    reveal_strlit("silence");
    reveal_strlit("silent");
    reveal_strlit("withhold");
    let words: Seq<Seq<char>> = seq![
        "voice"@, "speak"@, "speak_up"@, "silence"@, "silent"@, "withhold"@,
    ];
    assert forall|k: int| 0 <= k < words.len() && #[trigger] case_variant(s, words[k])
        implies normalize_word(s) == words[k] by {
        let a = words[k];
        assert(forall|i: int| 0 <= i < a.len() ==> is_plain_word_char(#[trigger] a[i]));
        lemma_case_variant_normalizes(s, a);
    }
    assert(words[0] == "voice"@);
    assert(words[1] == "speak"@);
    assert(words[2] == "speak_up"@);
    assert(words[3] == "silence"@);
    assert(words[4] == "silent"@);
    assert(words[5] == "withhold"@);
    assert("speak_up"@[0] != "withhold"@[0]);
}

/// Where the six-motive vector of a verdict comes from.
#[derive(Debug, Clone, Copy, PartialEq, Eq, Structural)]
pub enum MotiveSource {
    /// The uniform `1/6` vector (VOICE, or a reply that could not be read).
    Uniform,
    /// The reply's own motives, normalised onto the simplex.
    Parsed,
}

/// The discrete outcome of reading an LLM reply: the expression, where the
/// motive vector comes from, and whether the reply failed to parse.
#[derive(Debug, Clone, Copy, PartialEq, Eq, Structural)]
pub struct VerdictPlan {
    pub expression: Expression,
    pub motives: MotiveSource,
    pub parse_failed: bool,
}

/// The outcome for a reply whose decision names `decision` (`None` when
/// the reply held no readable JSON object or no known decision word) and
/// whose motives did or did not parse.
pub open spec fn spec_verdict_plan(decision: Option<Expression>, motives_parsed: bool) -> VerdictPlan {
    match decision {
        Some(Expression::Voice) => VerdictPlan {
            expression: Expression::Voice,
            motives: MotiveSource::Uniform,
            parse_failed: false,
        },
        Some(Expression::Silence) => if motives_parsed {
            VerdictPlan {
                expression: Expression::Silence,
                motives: MotiveSource::Parsed,
                parse_failed: false,
            }
        } else {
            VerdictPlan {
                expression: Expression::Silence,
                motives: MotiveSource::Uniform,
                parse_failed: true,
            }
        },
        _ => VerdictPlan {
            expression: Expression::Silence,
            motives: MotiveSource::Uniform,
            parse_failed: true,
        },
    }
}

/// The verdict for a reply: a voicing employee gets the uniform vector; a
/// silent one gets the reply's motives when they could be read, and the
/// uniform vector with `parse_failed` otherwise; a reply without a known
/// decision gets `Silence + uniform` with `parse_failed`.
pub fn verdict_plan(decision: Option<Expression>, motives_parsed: bool) -> (p: VerdictPlan)
    ensures
        p == spec_verdict_plan(decision, motives_parsed),
{
    match decision {
        Some(Expression::Voice) => VerdictPlan {
            expression: Expression::Voice,
            motives: MotiveSource::Uniform,
            parse_failed: false,
        },
        Some(Expression::Silence) => if motives_parsed {
            VerdictPlan {
                expression: Expression::Silence,
                motives: MotiveSource::Parsed,
                parse_failed: false,
            }
        } else {
            VerdictPlan {
                expression: Expression::Silence,
                motives: MotiveSource::Uniform,
                parse_failed: true,
            }
        },
        _ => VerdictPlan {
            expression: Expression::Silence,
            motives: MotiveSource::Uniform,
            parse_failed: true,
        },
    }
}

/// A reply that fails to parse always falls back to `Silence + uniform`; a
/// VOICE verdict never carries motives; parsed motives only come with a
/// successfully read SILENCE.
pub proof fn lemma_verdict_fallback(decision: Option<Expression>, motives_parsed: bool)
    ensures
        spec_verdict_plan(decision, motives_parsed).parse_failed ==> spec_verdict_plan(
            decision,
            motives_parsed,
        ).expression == Expression::Silence && spec_verdict_plan(
            decision,
            motives_parsed,
        ).motives == MotiveSource::Uniform,
        spec_verdict_plan(decision, motives_parsed).expression == Expression::Voice
            ==> spec_verdict_plan(decision, motives_parsed).motives == MotiveSource::Uniform
            && !spec_verdict_plan(decision, motives_parsed).parse_failed,
        spec_verdict_plan(decision, motives_parsed).motives == MotiveSource::Parsed
            ==> spec_verdict_plan(decision, motives_parsed).expression == Expression::Silence
            && !spec_verdict_plan(decision, motives_parsed).parse_failed,
        spec_verdict_plan(decision, motives_parsed).expression != Expression::Neutral,
{
}

/// The JSON object found in a reply is itself balanced: extracting again
/// from the extracted object gives the object back.
pub proof fn lemma_extract_json_object_stable(s: Seq<char>, start: int, end: int)
    requires
        first_open_brace(s, start),
        object_ends_at(s, start, end),
    ensures
        first_open_brace(s.subrange(start, end + 1), 0),
        object_ends_at(s.subrange(start, end + 1), 0, end - start),
{
    let o = s.subrange(start, end + 1);
    assert forall|i: int| 0 <= i <= end - start + 1 implies #[trigger] lex_state(o, 0, i)
        == lex_state(s, start, start + i) by {
        lemma_lex_state_shift(s, start, end, i);
    }
    assert forall|j: int| 0 <= j < end - start implies #[trigger] lex_state(o, 0, j + 1).0
        != 0 by {
        assert(lex_state(o, 0, j + 1) == lex_state(s, start, start + j + 1));
        assert(lex_state(s, start, (start + j) + 1).0 != 0);
    }
    assert(lex_state(o, 0, (end - start) + 1) == lex_state(s, start, end + 1));
}

proof fn lemma_lex_state_shift(s: Seq<char>, start: int, end: int, i: int)
    requires
        0 <= start <= end < s.len(),
        0 <= i <= end - start + 1,
    ensures
        lex_state(s.subrange(start, end + 1), 0, i) == lex_state(s, start, start + i),
    decreases i,
{
    if i > 0 {
        lemma_lex_state_shift(s, start, end, i - 1);
        assert(s.subrange(start, end + 1)[i - 1] == s[start + i - 1]);
    }
}

/// The object that [`spec_extracted_object`] picks is the one between the
/// first `{` and the `}` that closes it.
proof fn lemma_extracted_object_is(s: Seq<char>, a: int, e: int)
    requires
        first_open_brace(s, a),
        object_ends_at(s, a, e),
    ensures
        spec_extracted_object(s) == Some(s.subrange(a, e + 1)),
{
    let (a2, e2) = choose|a2: int, e2: int| first_open_brace(s, a2) && object_ends_at(s, a2, e2);
    lemma_extract_json_object_unique(s, a, a2, e, e2);
}

/// A text's first `{` and the `}` that closes it are each unique, so the
/// extracted object is determined by the text.
pub proof fn lemma_extract_json_object_unique(s: Seq<char>, a: int, b: int, e1: int, e2: int)
    requires
        first_open_brace(s, a),
        first_open_brace(s, b),
        object_ends_at(s, a, e1),
        object_ends_at(s, b, e2),
    ensures
        a == b,
        e1 == e2,
{
    if a < b {
        assert(s[a] == '{');
    }
    if b < a {
        assert(s[b] == '{');
    }
    if e1 < e2 {
        assert(lex_state(s, a, e1 + 1).0 != 0);
    }
    if e2 < e1 {
        assert(lex_state(s, a, e2 + 1).0 != 0);
    }
}

} // verus!
