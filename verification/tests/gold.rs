use accounting_engine::gold::{correct, gold_score, same_set, tally_case, LiveScorer};
use accounting_engine::types::Outcome;

#[test]
fn correct_solved_matches_decision_and_citation_set() {
    let out = Outcome::Answer {
        decision: "reverse_charge_applies".to_string(),
        citations: vec!["§92e".to_string(), "§92a".to_string()],
        justification: vec![],
    };
    assert!(correct(
        &out,
        "solved",
        &Some("reverse_charge_applies".to_string()),
        &Some(vec!["§92a".to_string(), "§92e".to_string()]), // order-insensitive
    ));
    // wrong decision
    assert!(!correct(
        &out,
        "solved",
        &Some("reverse_charge_not_applies".to_string()),
        &None,
    ));
    // citation set mismatch
    assert!(!correct(
        &out,
        "solved",
        &Some("reverse_charge_applies".to_string()),
        &Some(vec!["§92a".to_string()]),
    ));
}

#[test]
fn correct_expects_abstain_for_nonsolved() {
    let abstain = Outcome::Abstain {
        reason: "abstain".to_string(),
    };
    assert!(correct(&abstain, "abstain", &None, &None));
    let answer = Outcome::Answer {
        decision: "x".to_string(),
        citations: vec!["§1".to_string()],
        justification: vec![],
    };
    assert!(!correct(&answer, "abstain", &None, &None));
}

#[test]
fn correct_solved_without_expected_citations_checks_decision_only() {
    let out = Outcome::Answer {
        decision: "must_register".to_string(),
        citations: vec!["§6".to_string()],
        justification: vec![],
    };
    assert!(correct(&out, "solved", &Some("must_register".to_string()), &None));
    let abstain = Outcome::Abstain {
        reason: "abstain".to_string(),
    };
    assert!(!correct(&abstain, "solved", &Some("must_register".to_string()), &None));
}

#[test]
fn same_set_ignores_order_and_repeats() {
    let a = vec!["§92a".to_string(), "§92e".to_string(), "§92a".to_string()];
    let b = vec!["§92e".to_string(), "§92a".to_string()];
    assert!(same_set(&a, &b));
    assert!(!same_set(&a, &vec!["§92a".to_string()]));
    assert!(same_set(&vec![], &vec![]));
}

#[test]
fn gold_score_is_hits_over_total() {
    let s = gold_score(4, 5);
    assert_eq!(s.total, 5);
    assert_eq!(s.accuracy.num, 4);
    assert_eq!(s.accuracy.den, 5);
    let empty = gold_score(0, 0);
    assert_eq!(empty.total, 0);
}

#[test]
fn live_scorer_keeps_its_date() {
    assert_eq!(LiveScorer::new("2026-06-06").as_of_date, "2026-06-06");
}

#[test]
fn a_sweep_counts_cases_with_a_question_and_the_right_ones() {
    assert_eq!(tally_case(0, 0, None), (0, 0));
    assert_eq!(tally_case(0, 0, Some(true)), (1, 1));
    assert_eq!(tally_case(1, 1, Some(false)), (1, 2));
    assert_eq!(tally_case(1, 2, None), (1, 2));
}
