use accounting_engine::order::sorted_dedup;
use accounting_engine::solve::{classify_symbols, normalize, solve_from_symbols, solver_program};

fn syms(v: &[&str]) -> Result<Vec<String>, String> {
    Ok(v.iter().map(|s| s.to_string()).collect())
}

#[test]
fn normalize_trims_and_ends_with_one_dot() {
    assert_eq!(normalize("  foo(bar)  "), "foo(bar).");
    assert_eq!(normalize("foo(bar)..."), "foo(bar).");
    assert_eq!(normalize("   "), "");
    assert_eq!(normalize("."), ".");
    assert_eq!(normalize(normalize(" p. ").as_str()), normalize(" p. "));
}

#[test]
fn program_is_rules_then_nonblank_facts() {
    let facts = vec!["p".to_string(), "   ".to_string(), "q.".to_string()];
    assert_eq!(solver_program("a :- p.", &facts), "a :- p.\np.\nq.");
    assert_eq!(solver_program("r.", &vec![]), "r.\n");
}

#[test]
fn shown_atoms_are_sorted_into_kinds() {
    let atoms = classify_symbols(&vec![
        "decision(reverse_charge_applies)".to_string(),
        "cite(\"§92a\")".to_string(),
        "because(payers_both_vat)".to_string(),
        "because_not(other)".to_string(),
        "applies".to_string(),
    ]);
    assert_eq!(atoms.decisions, vec!["reverse_charge_applies"]);
    assert_eq!(atoms.cites, vec!["§92a"]);
    assert_eq!(atoms.because, vec!["payers_both_vat", "other"]);
}

#[test]
fn one_decision_is_solved_with_sorted_distinct_citations() {
    let r = solve_from_symbols(&syms(&[
        "decision(reverse_charge_applies)",
        "cite(\"§92e\")",
        "cite(\"§92a\")",
        "because(payers_both_vat)",
        "decision(reverse_charge_applies)",
        "cite(\"§92e\")",
    ]));
    assert_eq!(r.status, "solved");
    assert_eq!(r.decision.as_deref(), Some("reverse_charge_applies"));
    assert_eq!(r.citations, vec!["§92a", "§92e"]);
    assert_eq!(r.justification, vec!["payers_both_vat"]);
}

#[test]
fn two_decisions_are_a_conflict() {
    let r = solve_from_symbols(&syms(&["decision(a)", "decision(b)", "cite(\"§1\")"]));
    assert_eq!(r.status, "conflict");
    assert!(r.decision.is_none());
    assert!(r.citations.is_empty());
}

#[test]
fn no_decision_is_abstain() {
    let r = solve_from_symbols(&syms(&["cite(\"§1\")"]));
    assert_eq!(r.status, "abstain");
    assert!(r.decision.is_none());
}

#[test]
fn solver_error_is_schema_invalid() {
    let r = solve_from_symbols(&Err("parsing failed".to_string()));
    assert_eq!(r.status, "schema_invalid");
    assert!(r.decision.is_none());
    assert!(r.citations.is_empty());
}

#[test]
fn sorted_dedup_orders_by_code_point() {
    let v = vec!["b".to_string(), "a".to_string(), "B".to_string(), "a".to_string(), "ab".to_string()];
    assert_eq!(sorted_dedup(v), vec!["B", "a", "ab", "b"]);
}
