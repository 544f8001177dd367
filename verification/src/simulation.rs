//! Which decision mechanism a run wires: the driver wires exactly one, the
//! LLM mechanism for the LLM mode (which needs a client) and the rule
//! mechanism at the mode's dimensionality otherwise.

use vstd::prelude::*;

use crate::config::DecisionMode;

verus! {

/// The decision mechanism wired into a run.
#[derive(Debug, Clone, Copy, PartialEq, Eq, Structural)]
pub enum DecisionMechanism {
    /// `voice_decision`: the LLM decides, one call per agent and step.
    Llm,
    /// `voice_decision_rule_{n}dim`: the sign-constrained softmax collapsed
    /// to `n_dims` motive forms; it makes no LLM call.
    Rule { n_dims: usize },
}

/// The mechanism a run in `mode` wires, given whether an LLM client was
/// supplied: `None` when the LLM mode has no client.
pub open spec fn spec_decision_mechanism(mode: DecisionMode, client_supplied: bool) -> Option<
    DecisionMechanism,
> {
    if mode == DecisionMode::Llm {
        if client_supplied {
            Some(DecisionMechanism::Llm)
        } else {
            None
        }
    } else {
        Some(DecisionMechanism::Rule { n_dims: mode.spec_n_dims() as usize })
    }
}

/// Choose the decision mechanism of a run; the LLM mode without a client is
/// refused with the run's error message.
pub fn decision_mechanism(mode: DecisionMode, client_supplied: bool) -> (r: Result<
    DecisionMechanism,
    String,
>)
    ensures
        spec_decision_mechanism(mode, client_supplied) matches Some(d) ==> r == Ok::<
            DecisionMechanism,
            String,
        >(d),
        spec_decision_mechanism(mode, client_supplied) is None ==> (r matches Err(e) && e@
            == "LLM decision mode selected but no client supplied"@),
{
    match mode {
        DecisionMode::Llm => if client_supplied {
            Ok(DecisionMechanism::Llm)
        } else {
            Err("LLM decision mode selected but no client supplied".to_owned())
        },
        _ => Ok(DecisionMechanism::Rule { n_dims: mode.n_dims() }),
    }
}

/// The rule modes never wire the LLM mechanism, whatever client is at hand,
/// and the LLM mechanism is wired only for the LLM mode, exactly when a
/// client is supplied (the LLM mode without a client is refused).
pub proof fn lemma_rule_modes_make_no_llm_calls(mode: DecisionMode, client_supplied: bool)
    ensures
        mode != DecisionMode::Llm ==> spec_decision_mechanism(mode, client_supplied) == Some(
            DecisionMechanism::Rule { n_dims: mode.spec_n_dims() as usize },
        ),
        spec_decision_mechanism(mode, client_supplied) == Some(DecisionMechanism::Llm) ==> mode
            == DecisionMode::Llm,
        spec_decision_mechanism(DecisionMode::Llm, true) == Some(DecisionMechanism::Llm),
        spec_decision_mechanism(DecisionMode::Llm, false) is None,
        mode != DecisionMode::Llm ==> spec_decision_mechanism(mode, client_supplied) is Some,
{
}

} // verus!
