use accounting_engine::gate::{gate, gate_failure};
use accounting_engine::types::{
    Outcome, SolverResult, STATUS_ABSTAIN, STATUS_CONFLICT, STATUS_SCHEMA_INVALID, STATUS_SOLVED,
};

fn solved() -> SolverResult {
    SolverResult {
        decision: Some("reverse_charge_applies".to_string()),
        status: STATUS_SOLVED.to_string(),
        citations: vec!["§92a".to_string(), "§92e".to_string()],
        justification: vec!["payers_both_vat".to_string()],
    }
}

fn with_status(status: &str) -> SolverResult {
    SolverResult {
        decision: None,
        status: status.to_string(),
        citations: vec![],
        justification: vec![],
    }
}

#[test]
fn solved_with_decision_and_citations_is_answer() {
    match gate(&solved()) {
        Outcome::Answer {
            decision,
            citations,
            justification,
        } => {
            assert_eq!(decision, "reverse_charge_applies");
            assert_eq!(citations, vec!["§92a", "§92e"]);
            assert_eq!(justification, vec!["payers_both_vat"]);
        }
        Outcome::Abstain { reason } => panic!("expected answer, got abstain: {reason}"),
    }
}

#[test]
fn solved_but_no_citations_is_abstain() {
    let mut r = solved();
    r.citations.clear();
    assert_eq!(
        gate(&r),
        Outcome::Abstain {
            reason: STATUS_SOLVED.to_string()
        }
    );
}

#[test]
fn solved_but_no_decision_is_abstain() {
    let mut r = solved();
    r.decision = None;
    assert!(matches!(gate(&r), Outcome::Abstain { .. }));
}

#[test]
fn abstain_status_is_abstain() {
    let r = with_status(STATUS_ABSTAIN);
    assert_eq!(
        gate(&r),
        Outcome::Abstain {
            reason: STATUS_ABSTAIN.to_string()
        }
    );
}

#[test]
fn conflict_status_is_abstain() {
    let r = with_status(STATUS_CONFLICT);
    assert!(matches!(gate(&r), Outcome::Abstain { .. }));
}

#[test]
fn schema_invalid_status_is_abstain() {
    let r = with_status(STATUS_SCHEMA_INVALID);
    assert!(matches!(gate(&r), Outcome::Abstain { .. }));
}

#[test]
fn gate_failure_prefixes_reason() {
    assert_eq!(
        gate_failure("solver_down"),
        Outcome::Abstain {
            reason: "infra_failure:solver_down".to_string()
        }
    );
}

#[test]
fn gate_keeps_the_solver_status_as_the_abstain_reason() {
    let r = with_status("some_other_status");
    assert_eq!(
        gate(&r),
        Outcome::Abstain {
            reason: "some_other_status".to_string()
        }
    );
}
