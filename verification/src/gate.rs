//! Compile-or-refuse: the single chokepoint for the regulated answer.
use vstd::prelude::*;
use crate::text::str_eq;
use crate::types::{Outcome, SolverResult, solved_status};

verus! {

/// Whether a solver result is a clean, answerable `solved`: a decision and at least one
/// citation.
pub open spec fn answerable(result: SolverResult) -> bool {
    &&& result.status@ == solved_status()
    &&& result.decision is Some
    &&& result.citations.len() > 0
}

/// Map a solver result to an outcome. Anything but a clean `solved` (with a decision and
/// at least one citation) abstains, with the solver status as the reason.
pub fn gate(result: &SolverResult) -> (out: Outcome)
    ensures
        answerable(*result) ==> (out matches Outcome::Answer { decision, citations, justification }
            && decision == result.decision->0 && citations@ == result.citations@
            && justification@ == result.justification@),
        !answerable(*result) ==> (out matches Outcome::Abstain { reason }
            && reason@ == result.status@),
{
    let solved = str_eq(result.status.as_str(), "solved");
    if solved && result.decision.is_some() && result.citations.len() > 0 {
        let decision = match &result.decision {
            Some(d) => d.clone(),
            None => String::new(),
        };
        let citations = result.citations.clone();
        let justification = result.justification.clone();
        assert(citations@ =~= result.citations@);
        assert(justification@ =~= result.justification@);
        Outcome::Answer { decision, citations, justification }
    } else {
        Outcome::Abstain { reason: result.status.clone() }
    }
}

/// Fail-closed: any boundary failure (solver down, LLM error, bad extraction) abstains,
/// with the reason behind the `infra_failure:` prefix.
pub fn gate_failure(reason: &str) -> (out: Outcome)
    ensures
        out matches Outcome::Abstain { reason: r } && r@ == "infra_failure:"@ + reason@,
{
    let mut r = String::from_str("infra_failure:");
    r.append(reason);
    Outcome::Abstain { reason: r }
}

} // verus!
