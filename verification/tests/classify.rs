use accounting_engine::classify::{
    after_extract, after_route, after_rules_read, conclude, episode_for, example_pairs, refuse,
};
use accounting_engine::types::{EngineError, Outcome, SolverResult, StrategyItem, Topic};

#[test]
fn episode_records_an_answer() {
    let out = Outcome::Answer {
        decision: "reverse_charge_applies".to_string(),
        citations: vec!["§92a".to_string()],
        justification: vec![],
    };
    let facts = vec!["vat_status(supplier, payer)".to_string()];
    let e = episode_for(Some("dph-reverse-charge"), "q", "2026-06-06", Some(&facts), &out);
    assert_eq!(e.topic.as_deref(), Some("dph-reverse-charge"));
    assert_eq!(e.decision.as_deref(), Some("reverse_charge_applies"));
    assert_eq!(e.status, "solved");
    assert_eq!(e.citations, vec!["§92a"]);
    assert_eq!(e.facts, Some(facts));
}

#[test]
fn every_failure_abstains_and_is_recorded() {
    let (out, e) = refuse(None, "q", "2026-06-06", None, "off_topic");
    assert_eq!(
        out,
        Outcome::Abstain {
            reason: "infra_failure:off_topic".to_string()
        }
    );
    assert_eq!(e.status, "infra_failure:off_topic");
    assert!(e.topic.is_none());
    assert!(e.decision.is_none());
    assert!(e.citations.is_empty());
}

#[test]
fn concluded_episode_keeps_the_solver_status() {
    let conflict = SolverResult {
        decision: None,
        status: "conflict".to_string(),
        citations: vec![],
        justification: vec![],
    };
    let facts = vec!["p".to_string()];
    let (out, e) = conclude("t", "q", "d", &facts, &conflict);
    assert_eq!(
        out,
        Outcome::Abstain {
            reason: "conflict".to_string()
        }
    );
    assert_eq!(e.status, "conflict");
    let solved = SolverResult {
        decision: Some("must_register".to_string()),
        status: "solved".to_string(),
        citations: vec!["§6".to_string()],
        justification: vec![],
    };
    let (out, e) = conclude("t", "q", "d", &facts, &solved);
    assert!(matches!(out, Outcome::Answer { .. }));
    assert_eq!(e.decision.as_deref(), Some("must_register"));
    assert_eq!(e.citations, vec!["§6"]);
}

#[test]
fn lessons_become_title_content_pairs() {
    let items = vec![StrategyItem {
        title: "t".to_string(),
        description: "d".to_string(),
        content: "c".to_string(),
        tags: vec![],
    }];
    assert_eq!(example_pairs(&items), vec![("t".to_string(), "c".to_string())]);
}

#[test]
fn each_stage_refuses_with_its_own_reason() {
    let topic = Topic {
        id: "t".to_string(),
        ruleset: String::new(),
        description: String::new(),
        system_prompt: String::new(),
        slots: vec![],
        tags: vec![],
        rules_path: String::new(),
    };
    assert_eq!(after_route("q", "d", Ok(Some(topic.clone()))).ok(), Some(topic));
    let (out, ep) = after_route("q", "d", Ok(None)).expect_err("off topic");
    assert_eq!(out, Outcome::Abstain { reason: "infra_failure:off_topic".to_string() });
    assert_eq!(ep.topic, None);
    assert_eq!(ep.status, "infra_failure:off_topic");
    let (out, _) = after_route("q", "d", Err(EngineError::Budget("cap".to_string()))).expect_err("error");
    assert_eq!(out, Outcome::Abstain { reason: "infra_failure:budget error: cap".to_string() });
    assert_eq!(after_extract("t", "q", "d", Ok(vec!["p".to_string()])).ok(), Some(vec!["p".to_string()]));
    let (out, ep) = after_extract("t", "q", "d", Err(EngineError::Claude("x".to_string()))).expect_err("failed");
    assert_eq!(out, Outcome::Abstain { reason: "infra_failure:extraction_failed".to_string() });
    assert_eq!(ep.topic.as_deref(), Some("t"));
    assert_eq!(ep.facts, None);
    let facts = vec!["p".to_string()];
    assert_eq!(after_rules_read("t", "q", "d", &facts, Ok("r.".to_string())).ok().as_deref(), Some("r."));
    let (out, ep) = after_rules_read("t", "q", "d", &facts, Err("missing".to_string())).expect_err("read");
    assert_eq!(out, Outcome::Abstain { reason: "infra_failure:ruleset_read:missing".to_string() });
    assert_eq!(ep.facts, Some(facts));
}
