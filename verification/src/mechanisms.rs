//! The discrete rules of the mechanisms that run each simulation step: how
//! the 4- and 3-dimension ablations fold the six motives into carriers, the
//! name of the rule-mode decision mechanism, and which silence drains a
//! team's knowledge stock.

use vstd::prelude::*;

use crate::motives::MotiveLabel;
use crate::tally::count_where;
use crate::world::Expression;

verus! {

/// `ρ_i ← neighbour silence ratio` (Noelle-Neumann 1974), run in the
/// interaction phase.
pub struct SilenceSpiral;

/// Threshold cascade (Kuran 1995): a silent agent flips to VOICE if its
/// neighbour-VOICE ratio exceeds its threshold `θ_i`.
pub struct PrefalseCascade;

/// Updates the organisation's climate of silence and each team's climate.
pub struct ClimateSilence;

/// Snapshots the organisation-level knowledge proxy into `org_performance`.
pub struct MotiveMetrics;

/// The motive that carries the mass of `m` when the six motives are
/// collapsed to `n_dims` forms.
///
/// - 4 (Knoll): diffident folds into ineffectual and disengaged into
///   relational; ineffectual, relational, defensive and deviant carry.
/// - 3 (Van Dyne): diffident and disengaged fold into ineffectual
///   (acquiescent), deviant into defensive; relational stays (prosocial).
/// - any other count: every motive carries its own mass.
pub open spec fn spec_collapse_carrier(m: MotiveLabel, n_dims: nat) -> MotiveLabel {
    if n_dims == 4 {
        match m {
            MotiveLabel::Diffident => MotiveLabel::Ineffectual,
            MotiveLabel::Disengaged => MotiveLabel::Relational,
            _ => m,
        }
    } else if n_dims == 3 {
        match m {
            MotiveLabel::Diffident | MotiveLabel::Disengaged => MotiveLabel::Ineffectual,
            MotiveLabel::Deviant => MotiveLabel::Defensive,
            _ => m,
        }
    } else {
        m
    }
}

/// The motive into which the collapse to `n_dims` forms folds `m`.
pub fn collapse_carrier(m: MotiveLabel, n_dims: usize) -> (c: MotiveLabel)
    ensures
        c == spec_collapse_carrier(m, n_dims as nat),
{
    if n_dims == 4 {
        match m {
            MotiveLabel::Diffident => MotiveLabel::Ineffectual,
            MotiveLabel::Disengaged => MotiveLabel::Relational,
            _ => m,
        }
    } else if n_dims == 3 {
        match m {
            MotiveLabel::Diffident | MotiveLabel::Disengaged => MotiveLabel::Ineffectual,
            MotiveLabel::Deviant => MotiveLabel::Defensive,
            _ => m,
        }
    } else {
        m
    }
}

/// Name of the rule-mode decision mechanism at a dimensionality.
pub open spec fn spec_rule_mechanism_name(n_dims: nat) -> Seq<char> {
    if n_dims == 4 {
        "voice_decision_rule_4dim"@
    } else if n_dims == 3 {
        "voice_decision_rule_3dim"@
    } else {
        "voice_decision_rule_6dim"@
    }
}

/// Name reflecting the dimensionality (`voice_decision_rule_{6,4,3}dim`).
pub fn rule_mechanism_name(n_dims: usize) -> (s: &'static str)
    ensures
        s@ == spec_rule_mechanism_name(n_dims as nat),
{
    if n_dims == 4 {
        "voice_decision_rule_4dim"
    } else if n_dims == 3 {
        "voice_decision_rule_3dim"
    } else {
        "voice_decision_rule_6dim"
    }
}

/// Whether an employee drains the team's knowledge stock: silence whose
/// primary motive is ineffectual or disengaged.
pub open spec fn spec_drains_knowledge(expression: Expression, primary: MotiveLabel) -> bool {
    expression == Expression::Silence && (primary == MotiveLabel::Ineffectual || primary
        == MotiveLabel::Disengaged)
}

/// Whether an employee with this expression and primary motive drains the
/// team's knowledge stock.
pub fn drains_knowledge(expression: Expression, primary: MotiveLabel) -> (b: bool)
    ensures
        b == spec_drains_knowledge(expression, primary),
{
    match expression {
        Expression::Silence => match primary {
            MotiveLabel::Ineffectual | MotiveLabel::Disengaged => true,
            _ => false,
        },
        _ => false,
    }
}

/// The six labels in canonical order.
pub open spec fn all_motives() -> Seq<MotiveLabel> {
    seq![
        MotiveLabel::Ineffectual,
        MotiveLabel::Relational,
        MotiveLabel::Defensive,
        MotiveLabel::Diffident,
        MotiveLabel::Disengaged,
        MotiveLabel::Deviant,
    ]
}

/// The predicate "the motive carries its own mass at `n_dims`".
pub open spec fn is_carrier(n_dims: nat) -> spec_fn(MotiveLabel) -> bool {
    |m: MotiveLabel| spec_collapse_carrier(m, n_dims) == m
}

/// The collapse maps, motive by motive. Four forms (Knoll): diffident goes
/// to ineffectual, disengaged to relational, the other four stay. Three forms
/// (Van Dyne): diffident and disengaged go to ineffectual (acquiescent),
/// deviant to defensive, ineffectual, relational and defensive stay. Any
/// other count keeps every motive.
pub proof fn lemma_collapse_table(n_dims: nat)
    ensures
        spec_collapse_carrier(MotiveLabel::Diffident, 4) == MotiveLabel::Ineffectual,
        spec_collapse_carrier(MotiveLabel::Disengaged, 4) == MotiveLabel::Relational,
        spec_collapse_carrier(MotiveLabel::Ineffectual, 4) == MotiveLabel::Ineffectual,
        spec_collapse_carrier(MotiveLabel::Relational, 4) == MotiveLabel::Relational,
        spec_collapse_carrier(MotiveLabel::Defensive, 4) == MotiveLabel::Defensive,
        spec_collapse_carrier(MotiveLabel::Deviant, 4) == MotiveLabel::Deviant,
        spec_collapse_carrier(MotiveLabel::Diffident, 3) == MotiveLabel::Ineffectual,
        spec_collapse_carrier(MotiveLabel::Disengaged, 3) == MotiveLabel::Ineffectual,
        spec_collapse_carrier(MotiveLabel::Deviant, 3) == MotiveLabel::Defensive,
        spec_collapse_carrier(MotiveLabel::Ineffectual, 3) == MotiveLabel::Ineffectual,
        spec_collapse_carrier(MotiveLabel::Relational, 3) == MotiveLabel::Relational,
        spec_collapse_carrier(MotiveLabel::Defensive, 3) == MotiveLabel::Defensive,
        n_dims != 4 && n_dims != 3 ==> forall|m: MotiveLabel|
            #[trigger] spec_collapse_carrier(m, n_dims) == m,
{
}

/// The rule mechanism is named after its dimensionality: 4 and 3 give
/// `voice_decision_rule_4dim` and `voice_decision_rule_3dim`, any other
/// count `voice_decision_rule_6dim`.
pub proof fn lemma_rule_mechanism_names(n_dims: nat)
    ensures
        spec_rule_mechanism_name(4) == "voice_decision_rule_4dim"@,
        spec_rule_mechanism_name(3) == "voice_decision_rule_3dim"@,
        n_dims != 4 && n_dims != 3 ==> spec_rule_mechanism_name(n_dims)
            == "voice_decision_rule_6dim"@,
{
}

/// Knowledge drains exactly from silent employees whose primary motive is
/// ineffectual or disengaged: never from voice or neutral expression, and
/// never from relational, defensive, diffident or deviant silence.
pub proof fn lemma_knowledge_drain_table(e: Expression, m: MotiveLabel)
    ensures
        e != Expression::Silence ==> !spec_drains_knowledge(e, m),
        spec_drains_knowledge(Expression::Silence, MotiveLabel::Ineffectual),
        spec_drains_knowledge(Expression::Silence, MotiveLabel::Disengaged),
        !spec_drains_knowledge(Expression::Silence, MotiveLabel::Relational),
        !spec_drains_knowledge(Expression::Silence, MotiveLabel::Defensive),
        !spec_drains_knowledge(Expression::Silence, MotiveLabel::Diffident),
        !spec_drains_knowledge(Expression::Silence, MotiveLabel::Deviant),
{
}

/// The collapse folds each motive once and for all: a carrier carries its
/// own mass, so collapsing twice is collapsing once.
pub proof fn lemma_collapse_idempotent(m: MotiveLabel, n_dims: nat)
    ensures
        spec_collapse_carrier(spec_collapse_carrier(m, n_dims), n_dims) == spec_collapse_carrier(
            m,
            n_dims,
        ),
{
}

/// The 4-dimension collapse leaves no mass on diffident or disengaged; the
/// 3-dimension collapse leaves none on diffident, disengaged or deviant.
pub proof fn lemma_collapse_vacates(m: MotiveLabel)
    ensures
        spec_collapse_carrier(m, 4) != MotiveLabel::Diffident,
        spec_collapse_carrier(m, 4) != MotiveLabel::Disengaged,
        spec_collapse_carrier(m, 3) != MotiveLabel::Diffident,
        spec_collapse_carrier(m, 3) != MotiveLabel::Disengaged,
        spec_collapse_carrier(m, 3) != MotiveLabel::Deviant,
        spec_collapse_carrier(m, 6) == m,
{
}

/// Each mode collapses to exactly as many carriers as its dimensionality:
/// six, four (Knoll) or three (Van Dyne).
pub proof fn lemma_collapse_carrier_count()
    ensures
        count_where(all_motives(), is_carrier(6)) == 6,
        count_where(all_motives(), is_carrier(4)) == 4,
        count_where(all_motives(), is_carrier(3)) == 3,
{
    reveal_with_fuel(count_where, 7);
    let s = all_motives();
    assert(s.drop_last() =~= seq![
        MotiveLabel::Ineffectual,
        MotiveLabel::Relational,
        MotiveLabel::Defensive,
        MotiveLabel::Diffident,
        MotiveLabel::Disengaged,
    ]);
    assert(s.drop_last().drop_last() =~= seq![
        MotiveLabel::Ineffectual,
        MotiveLabel::Relational,
        MotiveLabel::Defensive,
        MotiveLabel::Diffident,
    ]);
    assert(s.drop_last().drop_last().drop_last() =~= seq![
        MotiveLabel::Ineffectual,
        MotiveLabel::Relational,
        MotiveLabel::Defensive,
    ]);
    assert(s.drop_last().drop_last().drop_last().drop_last() =~= seq![
        MotiveLabel::Ineffectual,
        MotiveLabel::Relational,
    ]);
    assert(s.drop_last().drop_last().drop_last().drop_last().drop_last() =~= seq![
        MotiveLabel::Ineffectual,
    ]);
    assert(s.drop_last().drop_last().drop_last().drop_last().drop_last().drop_last() =~= seq![]);
}

} // verus!
