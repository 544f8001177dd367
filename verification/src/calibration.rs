//! Brinsfield (2013) Study 1–4 numeric anchors.
//!
//! Every anchor is held exactly, in basis points (ten-thousandths of one):
//! a share of `0.1265` is `1265`. These constants pin the simulation to the
//! paper's empirical targets so that reports can give the distance to each
//! anchor; nothing else hard-codes these values.

use vstd::prelude::*;

use crate::motives::MotiveLabel;

verus! {

/// Basis points in one whole (the scale of every anchor below).
pub const BASIS_POINTS_PER_UNIT: u32 = 10000;

/// Study 1: defensive (fear-based) motive share of all silence (288 / 2277).
pub const DEFENSIVE_SHARE_ANCHOR_BP: u32 = 1265;

/// Acceptance band around the defensive anchor (±3%).
pub const DEFENSIVE_SHARE_TOL_BP: u32 = 300;

/// Study 1: ineffectual is the most frequent motive (target ≥ 30%).
pub const INEFFECTUAL_FLOOR_BP: u32 = 3000;

/// Deviant is rare (target ≤ 8%; Study 1 0.48% plus a social-desirability
/// correction).
pub const DEVIANT_CEILING_BP: u32 = 800;

/// Study 1 Fleiss κ for incident coding.
pub const FLEISS_KAPPA_INCIDENT_BP: u32 = 6300;

/// Study 1 Fleiss κ for target coding.
pub const FLEISS_KAPPA_TARGET_BP: u32 = 8300;

/// Study 1 Fleiss κ for reason coding.
pub const FLEISS_KAPPA_REASON_BP: u32 = 7300;

/// Study 2 EFA total variance explained (58.27%).
pub const EFA_VARIANCE_EXPLAINED_BP: u32 = 5827;

/// Study 2 EFA largest eigenvalue (20.25).
pub const EFA_LARGEST_EIGENVALUE_BP: u32 = 202500;

/// Study 3 six-factor CFA comparative fit index.
pub const CFA_CFI_BP: u32 = 9600;

/// Study 3 six-factor CFA non-normed fit index.
pub const CFA_NNFI_BP: u32 = 9600;

/// Study 3 six-factor CFA root-mean-square error of approximation.
pub const CFA_RMSEA_BP: u32 = 870;

/// Study 3 six-factor CFA χ²/df.
pub const CFA_CHI2_DF_BP: u32 = 43600;

/// Study 3 Cronbach α lower-bound targets per subscale, in canonical
/// [`MotiveLabel`] order.
pub const ALPHA_TARGET_BP: [u32; 6] = [9000, 9200, 9200, 8900, 8300, 9500];

/// Study 4 incremental validity `ΔR²` for VOICE per motive, in canonical
/// order; diffident is a proxy and deviant is not modelled by Study 4's
/// hierarchical regression.
pub const DELTA_R2_TARGET_BP: [u32; 6] = [400, 500, 500, 300, 300, 0];

/// Reference six-motive distribution (canonical order) used as the KL target
/// and the "paper distribution": ineffectual dominant, defensive at the
/// anchor, deviant rare.
pub const REFERENCE_MOTIVE_MIX_BP: [u32; 6] = [3700, 2000, 1265, 1500, 1200, 335];

/// The expected sign of the ψ → motive correlation (Study 4 #16).
pub open spec fn spec_psafety_sign(m: MotiveLabel) -> int {
    match m {
        MotiveLabel::Defensive | MotiveLabel::Diffident | MotiveLabel::Relational => -1,
        _ => 0,
    }
}

/// The expected sign of the neuroticism → motive correlation (Study 4 #17).
pub open spec fn spec_neuroticism_sign(m: MotiveLabel) -> int {
    match m {
        MotiveLabel::Deviant | MotiveLabel::Diffident => 1,
        _ => 0,
    }
}

/// Sign of the expected ψ → motive correlation: defensive, diffident and
/// relational are negatively related to psychological safety.
pub fn psafety_sign(m: MotiveLabel) -> (s: i8)
    ensures
        s == spec_psafety_sign(m),
{
    match m {
        MotiveLabel::Defensive | MotiveLabel::Diffident | MotiveLabel::Relational => -1,
        _ => 0,
    }
}

/// Sign of the expected neuroticism → motive correlation: deviant and
/// diffident are positively related to neuroticism.
pub fn neuroticism_sign(m: MotiveLabel) -> (s: i8)
    ensures
        s == spec_neuroticism_sign(m),
{
    match m {
        MotiveLabel::Deviant | MotiveLabel::Diffident => 1,
        _ => 0,
    }
}

/// The expected correlation signs (Study 4): psychological safety is
/// negatively related to exactly defensive, diffident and relational silence
/// and unrelated to ineffectual, disengaged and deviant silence;
/// neuroticism is positively related to exactly deviant and diffident
/// silence and unrelated to the other four.
pub proof fn lemma_correlation_sign_table(m: MotiveLabel)
    ensures
        spec_psafety_sign(m) == -1 <==> (m == MotiveLabel::Defensive || m
            == MotiveLabel::Diffident || m == MotiveLabel::Relational),
        spec_psafety_sign(m) == 0 <==> (m == MotiveLabel::Ineffectual || m
            == MotiveLabel::Disengaged || m == MotiveLabel::Deviant),
        spec_neuroticism_sign(m) == 1 <==> (m == MotiveLabel::Deviant || m
            == MotiveLabel::Diffident),
        spec_neuroticism_sign(m) == 0 <==> (m == MotiveLabel::Ineffectual || m
            == MotiveLabel::Relational || m == MotiveLabel::Defensive || m
            == MotiveLabel::Disengaged),
{
}

/// The reference mix is a distribution: its six shares add up to one whole.
pub proof fn lemma_reference_mix_normalised()
    ensures
        REFERENCE_MOTIVE_MIX_BP[0] + REFERENCE_MOTIVE_MIX_BP[1] + REFERENCE_MOTIVE_MIX_BP[2]
            + REFERENCE_MOTIVE_MIX_BP[3] + REFERENCE_MOTIVE_MIX_BP[4] + REFERENCE_MOTIVE_MIX_BP[5]
            == BASIS_POINTS_PER_UNIT,
{
}

/// The reference mix meets the Study 1 anchors: the defensive share is the
/// anchor, ineffectual is at or above its floor and the most frequent
/// motive, and deviant is at or below its ceiling.
pub proof fn lemma_reference_mix_respects_anchors()
    ensures
        REFERENCE_MOTIVE_MIX_BP[MotiveLabel::Defensive.spec_index() as int]
            == DEFENSIVE_SHARE_ANCHOR_BP,
        REFERENCE_MOTIVE_MIX_BP[MotiveLabel::Ineffectual.spec_index() as int]
            >= INEFFECTUAL_FLOOR_BP,
        REFERENCE_MOTIVE_MIX_BP[MotiveLabel::Deviant.spec_index() as int] <= DEVIANT_CEILING_BP,
        forall|i: int|
            0 <= i < 6 ==> #[trigger] REFERENCE_MOTIVE_MIX_BP[i] <= REFERENCE_MOTIVE_MIX_BP[0],
{
}

} // verus!
