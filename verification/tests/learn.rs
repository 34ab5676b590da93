use accounting_engine::gold::{GoldScore, Scorer};
use accounting_engine::learn::{
    approval_step, distill, fixed3_string, gate_verdict, gated_lesson, lesson_episode, review_queue_line,
    route_correction, verify, Approval, Draft, Routed,
};
use accounting_engine::store::{apply_patch, trusted_by_tags};
use accounting_engine::types::{
    Correction, CorrectionType, EngineError, Episode, GateResult, Provenance, Ratio,
    StoredStrategyItem, StrategyItem, StrategyItemInput, TrustState,
};

// --- Deterministic mock scorers (no model) -----------------------------------------
// Baseline 0.8; a good lesson raises it, a poisoned one drops it below baseline.
struct GoodScorer;
impl Scorer for GoodScorer {
    fn score(&self, extra: &[StrategyItem]) -> Result<GoldScore, EngineError> {
        Ok(GoldScore {
            accuracy: if extra.is_empty() {
                Ratio { num: 8, den: 10 }
            } else {
                Ratio { num: 9, den: 10 }
            },
            total: 5,
        })
    }
}

struct PoisonScorer;
impl Scorer for PoisonScorer {
    fn score(&self, extra: &[StrategyItem]) -> Result<GoldScore, EngineError> {
        Ok(GoldScore {
            accuracy: if extra.is_empty() {
                Ratio { num: 8, den: 10 }
            } else {
                Ratio { num: 6, den: 10 }
            },
            total: 5,
        })
    }
}

struct ThrowingScorer;
impl Scorer for ThrowingScorer {
    fn score(&self, _extra: &[StrategyItem]) -> Result<GoldScore, EngineError> {
        Err(EngineError::Learn("solver down".to_string()))
    }
}

struct EmptyGoldScorer;
impl Scorer for EmptyGoldScorer {
    fn score(&self, _extra: &[StrategyItem]) -> Result<GoldScore, EngineError> {
        Ok(GoldScore {
            accuracy: Ratio { num: 0, den: 0 },
            total: 0,
        })
    }
}

fn learn_episode() -> Episode {
    Episode {
        id: "ep-1".to_string(),
        created_at: "2026-01-01 00:00:00".to_string(),
        topic: Some("dph-reverse-charge".to_string()),
        question: "a case the model got wrong".to_string(),
        as_of_date: "2026-01-01".to_string(),
        facts: Some(vec![]),
        decision: None,
        status: "abstain".to_string(),
        citations: vec![],
    }
}

fn fact_mapping(expert: &str, section: Option<&str>, note: Option<&str>) -> Correction {
    Correction {
        id: "c-1".to_string(),
        created_at: "2026-01-02 00:00:00".to_string(),
        episode_id: "ep-1".to_string(),
        correction_type: CorrectionType::FactMapping,
        corrected_decision: Some("reverse_charge_applies".to_string()),
        governing_section: section.map(|s| s.to_string()),
        expert: expert.to_string(),
        note: note.map(|s| s.to_string()),
    }
}

fn stored(id: &str, trust: TrustState, gate: Option<GateResult>) -> StoredStrategyItem {
    StoredStrategyItem {
        id: id.to_string(),
        created_at: "2026-01-03 00:00:00".to_string(),
        title: "§92e: reverse_charge_applies".to_string(),
        description: "expert correction".to_string(),
        content: "lesson".to_string(),
        tags: vec!["dph".to_string()],
        trust_state: trust,
        provenance: Provenance {
            episode_id: Some("ep-1".to_string()),
            correction_id: Some("c-1".to_string()),
            source: "expert:hleb".to_string(),
        },
        helpful: 0,
        harmful: 0,
        gate,
        approved_by: None,
        approved_at: None,
    }
}

/// The lesson as the datastore keeps it once added under `id`.
fn store_lesson(input: StrategyItemInput, id: &str) -> StoredStrategyItem {
    StoredStrategyItem {
        id: id.to_string(),
        created_at: "2026-01-03 00:00:00".to_string(),
        title: input.title,
        description: input.description,
        content: input.content,
        tags: input.tags,
        trust_state: input.trust_state,
        provenance: input.provenance,
        helpful: i64::from(input.helpful),
        harmful: i64::from(input.harmful),
        gate: input.gate,
        approved_by: input.approved_by,
        approved_at: input.approved_at,
    }
}

fn dph() -> Vec<String> {
    vec!["dph".to_string()]
}

// verify() blocks an orphan lesson (missing provenance).
#[test]
fn verify_blocks_orphan() {
    let draft = Draft {
        title: "t".to_string(),
        description: "d".to_string(),
        content: "c".to_string(),
        tags: vec!["dph".to_string()],
        trust_state: TrustState::Provisional,
        provenance: Provenance {
            episode_id: None,
            correction_id: None,
            source: "x".to_string(),
        },
        helpful: 0,
        harmful: 0,
    };
    let gate = verify(&draft, &GoodScorer);
    assert!(!gate.passed);
    assert!(gate.reasons.join(" ").contains("provenance"));
}

#[test]
fn distill_builds_an_attributed_provisional_lesson() {
    let d = distill(
        &learn_episode(),
        &fact_mapping("hleb", Some("§92e"), Some("both payers")),
        vec!["dph".to_string()],
    );
    assert_eq!(d.title, "§92e: reverse_charge_applies");
    assert_eq!(d.description, "both payers");
    assert_eq!(
        d.content,
        "For a case like \"a case the model got wrong\", the correct outcome is reverse_charge_applies (§92e). both payers"
    );
    assert_eq!(d.trust_state, TrustState::Provisional);
    assert_eq!(d.provenance.episode_id.as_deref(), Some("ep-1"));
    assert_eq!(d.provenance.correction_id.as_deref(), Some("c-1"));
    assert_eq!(d.provenance.source, "expert:hleb");
    let plain = distill(&learn_episode(), &fact_mapping("hleb", None, None), vec![]);
    assert_eq!(plain.title, "rule: reverse_charge_applies");
    assert_eq!(plain.description, "expert correction");
}

#[test]
fn good_lesson_passes_gate_stays_provisional() {
    let input = gated_lesson(
        &learn_episode(),
        &fact_mapping("hleb", Some("§92e"), None),
        vec!["dph".to_string()],
        &GoodScorer,
    );
    let gate = input.gate.expect("gate");
    assert!(gate.passed);
    assert!(gate.reasons.is_empty());
    assert_eq!(input.trust_state, TrustState::Provisional);
    assert_eq!(input.provenance.episode_id.as_deref(), Some("ep-1"));
}

// A poisoned lesson that regresses the gold set fails its verification gate, and a human
// cannot approve it.
#[test]
fn poison_lesson_blocked_and_unapprovable() {
    let input = gated_lesson(
        &learn_episode(),
        &fact_mapping("evil", Some("§92e"), None),
        dph(),
        &PoisonScorer,
    );
    let item = store_lesson(input, "s-1");
    let gate = item.gate.as_ref().expect("gate");
    assert!(!gate.passed);
    assert!(gate.reasons.join(" ").contains("regress"));
    let err = approval_step(vec![item], "s-1", "hleb", "epoch:1".to_string())
        .expect_err("must refuse");
    assert!(err.message().contains("gate did not pass"));
}

// Human approval promotes a gate-passed lesson provisional → trusted; only then is it
// retrieved.
#[test]
fn approve_promotes_gate_passed_item() {
    let input = gated_lesson(
        &learn_episode(),
        &fact_mapping("hleb", Some("§92e"), None),
        dph(),
        &GoodScorer,
    );
    let item = store_lesson(input, "s-1");
    assert_eq!(trusted_by_tags(vec![item.clone()], &dph(), 1).len(), 0);
    let patch = match approval_step(vec![item.clone()], "s-1", "hleb", "epoch:1".to_string())
        .expect("approve")
    {
        Approval::Promote(p) => p,
        Approval::AlreadyTrusted(_) => panic!("expected a promotion"),
    };
    let trusted = apply_patch(item, patch);
    assert_eq!(trusted.trust_state, TrustState::Trusted);
    assert_eq!(trusted.approved_by.as_deref(), Some("hleb"));
    assert_eq!(trusted_by_tags(vec![trusted], &dph(), 1).len(), 1);
}

// Approval refuses a lesson whose gate failed; it stays provisional and is not retrieved.
#[test]
fn approve_refuses_gate_failed_item() {
    let input = gated_lesson(
        &learn_episode(),
        &fact_mapping("hleb", Some("§92e"), None),
        dph(),
        &PoisonScorer,
    );
    let item = store_lesson(input, "s-1");
    assert!(approval_step(vec![item.clone()], "s-1", "hleb", "epoch:1".to_string()).is_err());
    assert_eq!(item.trust_state, TrustState::Provisional);
    assert_eq!(trusted_by_tags(vec![item], &dph(), 1).len(), 0);
}

#[test]
fn poisoned_lesson_is_blocked_with_a_regression_reason() {
    let input = gated_lesson(
        &learn_episode(),
        &fact_mapping("evil", Some("§92e"), None),
        vec!["dph".to_string()],
        &PoisonScorer,
    );
    let gate = input.gate.expect("gate");
    assert!(!gate.passed);
    assert_eq!(gate.reasons, vec!["regresses gold set: 0.600 < 0.800".to_string()]);
}

#[test]
fn gate_fails_on_scorer_error() {
    let input = gated_lesson(
        &learn_episode(),
        &fact_mapping("hleb", Some("§92e"), None),
        vec![],
        &ThrowingScorer,
    );
    let gate = input.gate.expect("gate");
    assert!(!gate.passed);
    assert!(gate.reasons.join(" ").contains("errored"));
    assert_eq!(
        gate.reasons,
        vec!["gate verification errored: learn error: solver down".to_string()]
    );
}

#[test]
fn gate_fails_on_empty_gold() {
    let input = gated_lesson(
        &learn_episode(),
        &fact_mapping("hleb", Some("§92e"), None),
        vec![],
        &EmptyGoldScorer,
    );
    let gate = input.gate.expect("gate");
    assert!(!gate.passed);
    assert!(gate.reasons.join(" ").contains("no gold cases"));
}

#[test]
fn gate_verdict_lists_every_reason_in_order() {
    let draft = Draft {
        title: "t".to_string(),
        description: "d".to_string(),
        content: "c".to_string(),
        tags: vec![],
        trust_state: TrustState::Provisional,
        provenance: Provenance {
            episode_id: Some("e".to_string()),
            correction_id: None,
            source: String::new(),
        },
        helpful: 0,
        harmful: 0,
    };
    let base = Ok(GoldScore {
        accuracy: Ratio { num: 2, den: 3 },
        total: 0,
    });
    let cand = Ok(GoldScore {
        accuracy: Ratio { num: 1, den: 3 },
        total: 0,
    });
    let g = gate_verdict(&draft, &base, &cand);
    assert!(!g.passed);
    assert_eq!(
        g.reasons,
        vec![
            "missing provenance (orphan learning)".to_string(),
            "missing source".to_string(),
            "no gold cases to verify against".to_string(),
            "regresses gold set: 0.333 < 0.667".to_string(),
        ]
    );
}

#[test]
fn fact_mapping_without_section_rejected() {
    let c = fact_mapping("hleb", None, None);
    let err = lesson_episode(&c, Some(learn_episode())).expect_err("must reject");
    assert!(err.message().contains("governing"));
    let missing = lesson_episode(&fact_mapping("hleb", Some("§92e"), None), None)
        .expect_err("no episode");
    assert_eq!(missing, EngineError::Learn("episode ep-1 not found".to_string()));
    assert!(lesson_episode(&fact_mapping("hleb", Some("§92e"), None), Some(learn_episode())).is_ok());
}

#[test]
fn rule_defect_routed_to_human() {
    assert_eq!(route_correction(CorrectionType::FactMapping), Routed::Gate);
    assert_eq!(route_correction(CorrectionType::RuleDefect), Routed::Human);
    assert_eq!(route_correction(CorrectionType::VocabularyGap), Routed::Human);
    let mut c = fact_mapping("hleb", Some("§92e"), Some("rule incomplete"));
    c.correction_type = CorrectionType::RuleDefect;
    c.corrected_decision = None;
    assert_eq!(
        review_queue_line(&c),
        "- [ ] 2026-01-02 00:00:00 **rule_defect** (episode ep-1) by hleb:  §92e — rule incomplete\n"
    );
}

#[test]
fn approval_promotes_only_a_gate_passed_item() {
    let passed = GateResult {
        passed: true,
        reasons: vec![],
        baseline_accuracy: Ratio { num: 8, den: 10 },
        candidate_accuracy: Ratio { num: 9, den: 10 },
    };
    let failed = GateResult {
        passed: false,
        reasons: vec!["regresses gold set: 0.600 < 0.800".to_string(), "x".to_string()],
        baseline_accuracy: Ratio { num: 8, den: 10 },
        candidate_accuracy: Ratio { num: 6, den: 10 },
    };
    let items = vec![
        stored("a", TrustState::Provisional, Some(passed)),
        stored("b", TrustState::Provisional, Some(failed)),
        stored("c", TrustState::Provisional, None),
        stored("d", TrustState::Trusted, None),
    ];
    match approval_step(items.clone(), "a", "hleb", "epoch:1".to_string()).expect("approve") {
        Approval::Promote(p) => {
            assert_eq!(p.trust_state, Some(TrustState::Trusted));
            assert_eq!(p.approved_by.as_deref(), Some("hleb"));
            assert_eq!(p.approved_at.as_deref(), Some("epoch:1"));
        }
        Approval::AlreadyTrusted(_) => panic!("expected a promotion"),
    }
    let err = approval_step(items.clone(), "b", "hleb", "epoch:1".to_string()).expect_err("must refuse");
    assert!(err.message().contains("gate did not pass"));
    assert_eq!(
        err,
        EngineError::Learn(
            "cannot approve: verification gate did not pass (regresses gold set: 0.600 < 0.800; x)"
                .to_string()
        )
    );
    let none = approval_step(items.clone(), "c", "hleb", "epoch:1".to_string()).expect_err("no gate");
    assert!(none.message().contains("no gate run"));
    assert!(matches!(
        approval_step(items.clone(), "d", "hleb", "epoch:1".to_string()),
        Ok(Approval::AlreadyTrusted(_))
    ));
    assert_eq!(
        approval_step(items, "zz", "hleb", "epoch:1".to_string()).expect_err("missing"),
        EngineError::Learn("strategy item zz not found".to_string())
    );
}

// Records what it is handed: a first call with no lesson, then (only if that came back)
// one with the lesson as its one extra example.
struct RecordingScorer {
    calls: std::cell::RefCell<Vec<Vec<String>>>,
    fail_first: bool,
}
impl Scorer for RecordingScorer {
    fn score(&self, extra: &[StrategyItem]) -> Result<GoldScore, EngineError> {
        self.calls.borrow_mut().push(extra.iter().map(|x| x.title.clone()).collect());
        if self.fail_first {
            return Err(EngineError::Learn("down".to_string()));
        }
        Ok(GoldScore {
            accuracy: Ratio { num: 1, den: 2 },
            total: 2,
        })
    }
}

#[test]
fn verify_scores_without_then_with_the_lesson() {
    let d = distill(&learn_episode(), &fact_mapping("hleb", Some("§92e"), None), dph());
    let ok = RecordingScorer { calls: std::cell::RefCell::new(vec![]), fail_first: false };
    assert!(verify(&d, &ok).passed);
    assert_eq!(
        *ok.calls.borrow(),
        vec![vec![], vec!["§92e: reverse_charge_applies".to_string()]]
    );
    let down = RecordingScorer { calls: std::cell::RefCell::new(vec![]), fail_first: true };
    let g = verify(&d, &down);
    assert!(!g.passed);
    assert_eq!(*down.calls.borrow(), vec![Vec::<String>::new()]);
}

#[test]
fn accuracies_print_with_three_decimals_as_float_formatting_does() {
    let r = |num: u64, den: u64| fixed3_string(Ratio { num, den });
    assert_eq!(r(8, 10), "0.800");
    assert_eq!(r(2, 3), "0.667");
    assert_eq!(r(1, 3), "0.333");
    assert_eq!(r(1, 1), "1.000");
    assert_eq!(r(0, 0), "0.000");
    // Exact binary ties go to the even neighbour, as `{:.3}` does on an f64.
    assert_eq!(r(1, 16), "0.062");
    assert_eq!(r(3, 16), "0.188");
    assert_eq!(format!("{:.3}", 1.0_f64 / 16.0), "0.062");
    assert_eq!(format!("{:.3}", 3.0_f64 / 16.0), "0.188");
    // 1/80 is no binary fraction; its float lies just above the tie and rounds up.
    assert_eq!(r(1, 80), "0.013");
    assert_eq!(format!("{:.3}", 1.0_f64 / 80.0), "0.013");
}

#[test]
fn three_decimals_match_float_formatting_everywhere() {
    for den in 1u64..=400 {
        for num in 0u64..=den {
            assert_eq!(
                fixed3_string(Ratio { num, den }),
                format!("{:.3}", num as f64 / den as f64),
                "{num}/{den}"
            );
        }
    }
    assert_eq!(fixed3_string(Ratio { num: 7, den: 80 }), "0.087");
    // Counts below 2^53, which an f64 holds exactly.
    for (num, den) in [(9007199254740991u64, 3u64), (9007199254740991, 1), (1, 9007199254740991), (4503599627370497, 7), (5, 2)] {
        assert_eq!(
            fixed3_string(Ratio { num, den }),
            format!("{:.3}", num as f64 / den as f64),
            "{num}/{den}"
        );
    }
}
