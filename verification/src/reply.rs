//! Reading an LLM voice-decision reply: the first balanced JSON object of
//! the reply is decoded with serde_json, and its decision word, rationale
//! and the shape of its `motives` entry settle the verdict. Only the motive
//! numbers themselves are left to the caller.

use vstd::prelude::*;

use crate::motives::{parse_motive_label, MotiveLabel};
use crate::prompts::{
    decision_expression, decision_named, extract_json_object, spec_extracted_object,
    spec_verdict_plan, verdict_plan, MotiveSource, VerdictPlan,
};
use crate::world::Expression;

verus! {

/// The shape of a reply's `motives` entry, as far as the verdict depends on
/// it.
#[derive(Debug, Clone)]
pub enum MotivesShape {
    /// No `motives` key.
    Missing,
    /// `"motives": null`.
    Null,
    /// An object: each key, and whether its value is a JSON number.
    Object(Vec<(String, bool)>),
    /// An array of this many items.
    Array(usize),
    /// Any other JSON value.
    Other,
}

/// The mathematical view of a [`MotivesShape`].
pub enum MotivesShapeView {
    Missing,
    Null,
    Object(Seq<(Seq<char>, bool)>),
    Array(nat),
    Other,
}

impl View for MotivesShape {
    type V = MotivesShapeView;

    open spec fn view(&self) -> MotivesShapeView {
        match self {
            MotivesShape::Missing => MotivesShapeView::Missing,
            MotivesShape::Null => MotivesShapeView::Null,
            MotivesShape::Object(es) => MotivesShapeView::Object(
                es@.map_values(|e: (String, bool)| (e.0@, e.1)),
            ),
            MotivesShape::Array(n) => MotivesShapeView::Array(*n as nat),
            MotivesShape::Other => MotivesShapeView::Other,
        }
    }
}

/// The fields of a decoded reply object that the verdict reads: the
/// `decision` and `rationale` strings (`None` when absent or not a string)
/// and the shape of `motives`.
#[derive(Debug, Clone)]
pub struct ReplyFields {
    pub decision: Option<String>,
    pub rationale: Option<String>,
    pub motives: MotivesShape,
}

/// The mathematical view of [`ReplyFields`].
pub struct ReplyFieldsView {
    pub decision: Option<Seq<char>>,
    pub rationale: Option<Seq<char>>,
    pub motives: MotivesShapeView,
}

/// The view of an optional string.
pub open spec fn opt_string_view(s: Option<String>) -> Option<Seq<char>> {
    match s {
        Some(t) => Some(t@),
        None => None,
    }
}

impl View for ReplyFields {
    type V = ReplyFieldsView;

    open spec fn view(&self) -> ReplyFieldsView {
        ReplyFieldsView {
            decision: opt_string_view(self.decision),
            rationale: opt_string_view(self.rationale),
            motives: self.motives@,
        }
    }
}

/// The view of an optional decoded reply.
pub open spec fn reply_fields_view(r: Option<ReplyFields>) -> Option<ReplyFieldsView> {
    match r {
        Some(f) => Some(f@),
        None => None,
    }
}

/// What serde_json's `from_str::<Value>` makes of the text `json`, read as
/// [`ReplyFields`]: `None` when the text is not one JSON value.
pub uninterp spec fn spec_reply_fields(json: Seq<char>) -> Option<ReplyFieldsView>;

/// Decodes `json` with `serde_json::from_str::<serde_json::Value>` and reads
/// the `decision` and `rationale` strings (`Value::get`, `Value::as_str`) and
/// the shape of `motives` (its variant; for an object, each key and whether
/// `Value::as_f64` reads its value; for an array, its length). The contract
/// names the result and states nothing more of it.
#[verifier::external_body]
pub(crate) fn read_reply_fields(json: &str) -> (r: Option<ReplyFields>)
    ensures
        reply_fields_view(r) == spec_reply_fields(json@),
{
    let v: serde_json::Value = serde_json::from_str(json).ok()?;
    let text = |key: &str| v.get(key).and_then(|x| x.as_str()).map(|x| x.to_string());
    let motives = match v.get("motives") {
        None => MotivesShape::Missing,
        Some(serde_json::Value::Null) => MotivesShape::Null,
        Some(serde_json::Value::Object(m)) => MotivesShape::Object(
            m.iter().map(|(k, x)| (k.clone(), x.as_f64().is_some())).collect(),
        ),
        Some(serde_json::Value::Array(a)) => MotivesShape::Array(a.len()),
        Some(_) => MotivesShape::Other,
    };
    Some(ReplyFields { decision: text("decision"), rationale: text("rationale"), motives })
}

/// Whether a reply's motives can be read: an object with at least one key
/// that names a motive and whose value is a number, or an array of exactly
/// six items.
pub open spec fn spec_motives_readable(m: MotivesShapeView) -> bool {
    match m {
        MotivesShapeView::Object(es) => exists|i: int|
            0 <= i < es.len() && (#[trigger] es[i]).1 && parse_motive_label(es[i].0) is Some,
        MotivesShapeView::Array(n) => n == 6,
        _ => false,
    }
}

/// Whether the motives of a reply can be read (see [`spec_motives_readable`]).
pub fn motives_readable(m: &MotivesShape) -> (b: bool)
    ensures
        b == spec_motives_readable(m@),
{
    match m {
        MotivesShape::Object(es) => {
            let mut i: usize = 0;
            while i < es.len()
                invariant
                    i <= es@.len(),
                    m@ == MotivesShapeView::Object(
                        es@.map_values(|e: (String, bool)| (e.0@, e.1)),
                    ),
                    forall|j: int|
                        0 <= j < i ==> !((#[trigger] es@[j]).1 && parse_motive_label(es@[j].0@)
                            is Some),
                decreases es@.len() - i,
            {
                let (key, is_number) = (&es[i].0, es[i].1);
                if is_number && MotiveLabel::parse(key.as_str()).is_some() {
                    proof {
                        let ev = es@.map_values(|e: (String, bool)| (e.0@, e.1));
                        assert(ev[i as int] == (es@[i as int].0@, es@[i as int].1));
                    }
                    return true;
                }
                i = i + 1;
            }
            proof {
                let ev = es@.map_values(|e: (String, bool)| (e.0@, e.1));
                assert forall|j: int| 0 <= j < ev.len() implies !((#[trigger] ev[j]).1
                    && parse_motive_label(ev[j].0) is Some) by {
                    assert(ev[j] == (es@[j].0@, es@[j].1));
                }
            }
            false
        },
        MotivesShape::Array(n) => *n == 6,
        _ => false,
    }
}

/// The decision a decoded reply names: its `decision` string read as a
/// decision word, `None` when absent or unknown.
pub open spec fn fields_decision(f: ReplyFieldsView) -> Option<Expression> {
    match f.decision {
        Some(w) => decision_named(w),
        None => None,
    }
}

/// The verdict and rationale of a reply, from its decoded fields (`None`
/// when no JSON object could be decoded): an undecodable reply falls back
/// to `Silence + uniform` with `parse_failed` and an empty rationale;
/// otherwise the decision word and the readability of the motives settle
/// the verdict, and the rationale is the reply's (empty when absent).
pub open spec fn spec_plan_from_fields(f: Option<ReplyFieldsView>) -> (VerdictPlan, Seq<char>) {
    match f {
        None => (spec_verdict_plan(None, false), Seq::empty()),
        Some(g) => (
            spec_verdict_plan(fields_decision(g), spec_motives_readable(g.motives)),
            match g.rationale {
                Some(r) => r,
                None => Seq::empty(),
            },
        ),
    }
}

/// The verdict and rationale of a reply from its decoded fields.
pub fn plan_from_fields(f: Option<ReplyFields>) -> (r: (VerdictPlan, String))
    ensures
        r.0 == spec_plan_from_fields(reply_fields_view(f)).0,
        r.1@ == spec_plan_from_fields(reply_fields_view(f)).1,
{
    match f {
        None => (verdict_plan(None, false), String::new()),
        Some(g) => {
            let decision = match &g.decision {
                Some(w) => decision_expression(w.as_str()),
                None => None,
            };
            let readable = motives_readable(&g.motives);
            let rationale = match g.rationale {
                Some(r) => r,
                None => String::new(),
            };
            (verdict_plan(decision, readable), rationale)
        },
    }
}

/// Motives are readable as soon as one entry of the object has a key that
/// names a motive and a numeric value, whatever the other entries hold.
pub proof fn lemma_motives_readable_entry(es: Seq<(Seq<char>, bool)>, i: int)
    requires
        0 <= i < es.len(),
        es[i].1,
        parse_motive_label(es[i].0) is Some,
    ensures
        spec_motives_readable(MotivesShapeView::Object(es)),
{
}

/// Adding an entry, numeric or not, at either end of a readable object of
/// motives keeps it readable.
pub proof fn lemma_motives_readable_extend(es: Seq<(Seq<char>, bool)>, e: (Seq<char>, bool))
    requires
        spec_motives_readable(MotivesShapeView::Object(es)),
    ensures
        spec_motives_readable(MotivesShapeView::Object(es.push(e))),
        spec_motives_readable(MotivesShapeView::Object(seq![e] + es)),
{
    let i = choose|i: int|
        0 <= i < es.len() && (#[trigger] es[i]).1 && parse_motive_label(es[i].0) is Some;
    assert(es.push(e)[i] == es[i]);
    assert((seq![e] + es)[i + 1] == es[i]);
}

/// An object none of whose entries has both a motive key and a numeric
/// value is unreadable; an array is readable exactly when it holds six
/// items; a missing, null or other `motives` entry is unreadable.
pub proof fn lemma_motives_unreadable(es: Seq<(Seq<char>, bool)>, n: nat)
    ensures
        (forall|i: int|
            0 <= i < es.len() ==> !((#[trigger] es[i]).1 && parse_motive_label(es[i].0) is Some))
            ==> !spec_motives_readable(MotivesShapeView::Object(es)),
        spec_motives_readable(MotivesShapeView::Array(n)) <==> n == 6,
        !spec_motives_readable(MotivesShapeView::Missing),
        !spec_motives_readable(MotivesShapeView::Null),
        !spec_motives_readable(MotivesShapeView::Other),
{
}

/// The verdict of a decoded reply. Without a `decision` string, or with one
/// that is no decision word, it is `Silence + uniform` with `parse_failed`,
/// whatever the motives. A VOICE word gives `Voice + uniform`. A SILENCE
/// word gives the reply's motives when they are readable and `Silence +
/// uniform` with `parse_failed` otherwise. The rationale is the reply's
/// string, or empty when it has none; a reply that did not decode has an
/// empty rationale and falls back.
pub proof fn lemma_reply_plan_table(f: ReplyFieldsView)
    ensures
        (f.decision is None || decision_named(f.decision->0) is None) ==> spec_plan_from_fields(
            Some(f),
        ).0 == (VerdictPlan {
            expression: Expression::Silence,
            motives: MotiveSource::Uniform,
            parse_failed: true,
        }),
        (f.decision is Some && decision_named(f.decision->0) == Some(Expression::Voice))
            ==> spec_plan_from_fields(Some(f)).0 == (VerdictPlan {
            expression: Expression::Voice,
            motives: MotiveSource::Uniform,
            parse_failed: false,
        }),
        (f.decision is Some && decision_named(f.decision->0) == Some(Expression::Silence)
            && spec_motives_readable(f.motives)) ==> spec_plan_from_fields(Some(f)).0
            == (VerdictPlan {
            expression: Expression::Silence,
            motives: MotiveSource::Parsed,
            parse_failed: false,
        }),
        (f.decision is Some && decision_named(f.decision->0) == Some(Expression::Silence)
            && !spec_motives_readable(f.motives)) ==> spec_plan_from_fields(Some(f)).0
            == (VerdictPlan {
            expression: Expression::Silence,
            motives: MotiveSource::Uniform,
            parse_failed: true,
        }),
        f.rationale is Some ==> spec_plan_from_fields(Some(f)).1 == f.rationale->0,
        f.rationale is None ==> spec_plan_from_fields(Some(f)).1 == Seq::<char>::empty(),
        spec_plan_from_fields(None) == (
            VerdictPlan {
                expression: Expression::Silence,
                motives: MotiveSource::Uniform,
                parse_failed: true,
            },
            Seq::<char>::empty(),
        ),
{
}

/// The verdict and rationale of the reply text `text`: its first balanced
/// `{...}` is decoded (no object, or an object that does not decode, falls
/// back to `Silence + uniform` with `parse_failed`).
pub open spec fn spec_voice_reply_plan(text: Seq<char>) -> (VerdictPlan, Seq<char>) {
    match spec_extracted_object(text) {
        None => spec_plan_from_fields(None),
        Some(o) => spec_plan_from_fields(spec_reply_fields(o)),
    }
}

/// Read an LLM reply into its verdict plan and rationale: the first balanced
/// `{...}` of the reply is decoded as JSON; parse failures fall back to
/// `Silence + uniform` with `parse_failed`. The motive numbers of a
/// `Parsed` plan are read by the caller.
pub fn voice_reply_plan(text: &str) -> (r: (VerdictPlan, String))
    ensures
        r.0 == spec_voice_reply_plan(text@).0,
        r.1@ == spec_voice_reply_plan(text@).1,
{
    match extract_json_object(text) {
        None => plan_from_fields(None),
        Some(o) => plan_from_fields(read_reply_fields(o.as_str())),
    }
}

/// A reply without a balanced JSON object, or whose object does not decode,
/// is `Silence + uniform` with `parse_failed` and an empty rationale.
pub proof fn lemma_unreadable_reply_falls_back(text: Seq<char>)
    requires
        spec_extracted_object(text) is None || spec_reply_fields(
            spec_extracted_object(text)->0,
        ) is None,
    ensures
        spec_voice_reply_plan(text).0.expression == Expression::Silence,
        spec_voice_reply_plan(text).0.motives == MotiveSource::Uniform,
        spec_voice_reply_plan(text).0.parse_failed,
        spec_voice_reply_plan(text).1 == Seq::<char>::empty(),
{
}

} // verus!
