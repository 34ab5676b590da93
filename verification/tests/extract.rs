use accounting_engine::extract::{
    accept_sample, after_sample, extract_json_object_pub, SampleStep, fence_members, extraction_prompt, extraction_system_prompt,
    extract_samples, last_brace_object, last_fenced_block, merge_samples, parse_slots,
    slot_instruction, slots_to_facts,
};
use accounting_engine::slots::SlotMap;
use accounting_engine::types::{EngineError, SlotSpec, Topic};

fn spec(values: &[&str], template: &str) -> SlotSpec {
    SlotSpec {
        enum_: values.iter().map(|v| v.to_string()).collect(),
        fact_template: template.to_string(),
    }
}

fn topic(id: &str, ruleset: &str, slots: Vec<(&str, SlotSpec)>) -> Topic {
    let mut t = Topic {
        id: id.to_string(),
        ruleset: ruleset.to_string(),
        description: format!("{id} topic"),
        system_prompt: "You map a Czech VAT case onto fixed slots.".to_string(),
        slots: vec![],
        tags: vec!["dph".to_string()],
        rules_path: format!("{id}/rules.lp"),
    };
    for (name, s) in slots {
        t.insert_slot(name.to_string(), s);
    }
    t
}

// The DPH reverse-charge module's slot vocabulary (predicates.md of that module).
fn rc_topic() -> Topic {
    topic(
        "dph-reverse-charge",
        "dph_reverse_charge",
        vec![
            ("supplier_vat", spec(&["payer", "nonpayer"], "vat_status(supplier, {})")),
            ("customer_vat", spec(&["payer", "nonpayer"], "vat_status(customer, {})")),
            (
                "place_of_supply",
                spec(&["czech_republic", "other"], "place_of_supply({})"),
            ),
            (
                "supply_category",
                spec(&["construction_assembly", "other"], "supply_category({})"),
            ),
        ],
    )
}

// The DPH registration module's slot vocabulary.
fn reg_topic() -> Topic {
    topic(
        "dph-registration",
        "dph_registration",
        vec![(
            "turnover_over_threshold",
            spec(&["yes", "no"], "turnover_over_threshold({})"),
        )],
    )
}

fn value(m: &SlotMap, key: &str) -> String {
    m.get(key).expect("slot present").clone()
}

// Enum fence: an out-of-enum value → "unknown"; valid values pass through.
#[test]
fn enum_fence_rejects_out_of_enum() {
    let topic = rc_topic();
    let text = r#"reasoning...
```json
{
  "supplier_vat": "payer",
  "customer_vat": "BOGUS",
  "place_of_supply": "czech_republic",
  "supply_category": "construction_assembly"
}
```"#;
    let slots = parse_slots(&topic, text).expect("parsed");
    assert_eq!(value(&slots, "supplier_vat"), "payer");
    assert_eq!(value(&slots, "customer_vat"), "unknown"); // fenced out
    assert_eq!(value(&slots, "place_of_supply"), "czech_republic");
    assert_eq!(value(&slots, "supply_category"), "construction_assembly");
}

// A missing key → "unknown".
#[test]
fn missing_key_becomes_unknown() {
    let topic = rc_topic();
    let text = r#"```json
{ "supplier_vat": "payer" }
```"#;
    let slots = parse_slots(&topic, text).expect("parsed");
    assert_eq!(value(&slots, "supplier_vat"), "payer");
    assert_eq!(value(&slots, "customer_vat"), "unknown");
}

// slots_to_facts builds the right facts and skips "unknown".
#[test]
fn slots_to_facts_builds_asp_and_skips_unknown() {
    let topic = rc_topic();
    let mut slots = SlotMap::new();
    slots.insert("supplier_vat".to_string(), "payer".to_string());
    slots.insert("customer_vat".to_string(), "payer".to_string());
    slots.insert("place_of_supply".to_string(), "czech_republic".to_string());
    slots.insert("supply_category".to_string(), "unknown".to_string());
    let facts = slots_to_facts(&topic, &slots);
    assert!(facts.contains(&"vat_status(supplier, payer)".to_string()));
    assert!(facts.contains(&"vat_status(customer, payer)".to_string()));
    assert!(facts.contains(&"place_of_supply(czech_republic)".to_string()));
    // supply_category is unknown → no fact emitted.
    assert!(!facts.iter().any(|f| f.starts_with("supply_category")));
    assert_eq!(facts.len(), 3);
}

// The LAST fenced block wins (the model may reason in an earlier fence).
#[test]
fn last_fenced_block_wins() {
    let topic = rc_topic();
    let text = r#"```json
{ "supplier_vat": "nonpayer" }
```
then I reconsidered:
```json
{ "supplier_vat": "payer", "customer_vat": "payer", "place_of_supply": "czech_republic", "supply_category": "other" }
```"#;
    let slots = parse_slots(&topic, text).expect("parsed");
    assert_eq!(value(&slots, "supplier_vat"), "payer");
    assert_eq!(value(&slots, "supply_category"), "other");
}

// Fallback to the last {...} when there is no fence.
#[test]
fn falls_back_to_brace_object() {
    let topic = rc_topic();
    let text = r#"My answer: { "turnover_over_threshold": "yes" } done."#;
    let reg = reg_topic();
    let _ = topic; // rc topic unused here
    let slots = parse_slots(&reg, text).expect("parsed");
    assert_eq!(value(&slots, "turnover_over_threshold"), "yes");
}

// No JSON at all → None (caller abstains).
#[test]
fn no_json_is_none() {
    let topic = rc_topic();
    assert!(parse_slots(&topic, "no json here, sorry").is_none());
}

// slot_instruction lists every slot with its enum plus "unknown".
#[test]
fn slot_instruction_lists_vocab_with_unknown() {
    let topic = rc_topic();
    let instr = slot_instruction(&topic);
    assert!(instr.contains("\"supplier_vat\""));
    assert!(instr.contains("\"construction_assembly\""));
    assert!(instr.contains("\"unknown\""));
    assert!(instr.contains("```json"));
}

#[test]
fn slot_instruction_exact_text_for_one_slot() {
    let instr = slot_instruction(&reg_topic());
    assert_eq!(
        instr,
        "First reason briefly in plain text about each field the case actually states.\n\
         Then output the final answer as a JSON object inside a ```json code block, with\n\
         EXACTLY these keys and one of the allowed values each:\n\
         {\n  \"turnover_over_threshold\": \"yes\" | \"no\" | \"unknown\"\n}\n\
         Use \"unknown\" for any field the case does not clearly and explicitly state."
    );
}

#[test]
fn slot_table_is_kept_in_name_order() {
    let t = rc_topic();
    let names: Vec<&str> = t.slots.iter().map(|(n, _)| n.as_str()).collect();
    assert_eq!(
        names,
        vec!["customer_vat", "place_of_supply", "supplier_vat", "supply_category"]
    );
    let mut t2 = t.clone();
    t2.insert_slot("customer_vat".to_string(), spec(&["payer"], "x({})"));
    assert_eq!(t2.slots.len(), 4);
    assert_eq!(t2.slots[0].1.enum_, vec!["payer".to_string()]);
}

#[test]
fn fenced_block_skips_language_tag_and_trims() {
    assert_eq!(
        last_fenced_block("intro\n```json\n  {\"a\": 1}  \n```\ntail").as_deref(),
        Some("{\"a\": 1}")
    );
    // An opening fence with no newline after it is no block.
    assert_eq!(last_fenced_block("```json {\"a\": 1}```"), None);
    // An unclosed block is ignored; the earlier closed one stands.
    assert_eq!(
        last_fenced_block("```\nfirst\n```\n```\nunclosed").as_deref(),
        Some("first")
    );
}

#[test]
fn brace_span_runs_from_last_open_to_last_close() {
    assert_eq!(last_brace_object("a {x} b {y} c").as_deref(), Some("{y}"));
    assert_eq!(
        last_brace_object("x {\"a\": {\"b\": 1}} y }").as_deref(),
        Some("{\"b\": 1}} y }")
    );
    assert_eq!(last_brace_object("{x} then {").as_deref(), None);
    assert_eq!(last_brace_object("} before {"), None);
    assert_eq!(last_brace_object("no braces"), None);
    assert_eq!(
        extract_json_object_pub("text {\"topic\": \"x\"}").as_deref(),
        Some("{\"topic\": \"x\"}")
    );
}

#[test]
fn non_string_or_non_object_json_is_fenced_or_refused() {
    let reg = reg_topic();
    // A number is not a string value: fenced to unknown.
    let m = parse_slots(&reg, "{\"turnover_over_threshold\": 1}").expect("object");
    assert_eq!(value(&m, "turnover_over_threshold"), "unknown");
    // A JSON array is not an object.
    assert!(parse_slots(&reg, "```\n[1, 2]\n```").is_none());
    // Broken JSON does not parse.
    assert!(parse_slots(&reg, "{ \"turnover_over_threshold\": }").is_none());
}

#[test]
fn samples_agree_or_fall_to_unknown() {
    let reg = rc_topic();
    let mut a = SlotMap::new();
    a.insert("supplier_vat".to_string(), "payer".to_string());
    a.insert("customer_vat".to_string(), "payer".to_string());
    let mut b = SlotMap::new();
    b.insert("supplier_vat".to_string(), "payer".to_string());
    b.insert("customer_vat".to_string(), "nonpayer".to_string());
    let merged = merge_samples(&reg, &vec![a.clone(), b]);
    assert_eq!(value(&merged, "supplier_vat"), "payer");
    assert_eq!(value(&merged, "customer_vat"), "unknown");
    assert_eq!(value(&merged, "place_of_supply"), "unknown");
    assert!(merged.get("not_a_slot").is_none());
    let single = merge_samples(&reg, &vec![a]);
    assert_eq!(value(&single, "customer_vat"), "payer");
}

#[test]
fn prompts_are_built_from_data() {
    let reg = reg_topic();
    let system = extraction_system_prompt(&reg);
    assert!(system.starts_with("You map a Czech VAT case onto fixed slots.\n\nFirst reason"));
    assert_eq!(extraction_prompt("Q?", &vec![]), "Case:\nQ?");
    assert_eq!(
        extraction_prompt(
            "Q?",
            &vec![
                ("§92e: applies".to_string(), "lesson one".to_string()),
                ("§6: must_register".to_string(), "lesson two".to_string())
            ]
        ),
        "Prior lessons:\n- §92e: applies: lesson one\n- §6: must_register: lesson two\n\nCase:\nQ?"
    );
    assert_eq!(extract_samples(None), 1);
    assert_eq!(extract_samples(Some(0)), 1);
    assert_eq!(extract_samples(Some(3)), 3);
}

#[test]
fn a_sample_is_refused_on_error_or_without_slots() {
    let reg = reg_topic();
    assert_eq!(
        accept_sample(&reg, true, "{\"turnover_over_threshold\": \"yes\"}").err(),
        Some(EngineError::Claude("is_error".to_string()))
    );
    assert_eq!(
        accept_sample(&reg, false, "nothing").err(),
        Some(EngineError::Claude("no parseable JSON slots".to_string()))
    );
    let ok = accept_sample(&reg, false, "{\"turnover_over_threshold\": \"no\"}").expect("slots");
    assert_eq!(value(&ok, "turnover_over_threshold"), "no");
}

#[test]
fn facts_use_every_placeholder() {
    let t = topic(
        "x",
        "x",
        vec![("pair", spec(&["a"], "p({}, {})"))],
    );
    let mut m = SlotMap::new();
    m.insert("pair".to_string(), "a".to_string());
    assert_eq!(slots_to_facts(&t, &m), vec!["p(a, a)".to_string()]);
}

#[test]
fn members_are_fenced_to_the_vocabulary() {
    let topic = rc_topic();
    let members = vec![
        ("supplier_vat".to_string(), Some("payer".to_string())),
        ("customer_vat".to_string(), Some("BOGUS".to_string())),
        ("place_of_supply".to_string(), None),
        ("extra".to_string(), Some("payer".to_string())),
    ];
    let m = fence_members(&topic, &members);
    assert_eq!(value(&m, "supplier_vat"), "payer");
    assert_eq!(value(&m, "customer_vat"), "unknown");
    assert_eq!(value(&m, "place_of_supply"), "unknown");
    assert_eq!(value(&m, "supply_category"), "unknown");
    assert!(m.get("extra").is_none());
}

#[test]
fn samples_are_drawn_until_all_came_back_then_merged() {
    let topic = reg_topic();
    let yes = parse_slots(&topic, "{\"turnover_over_threshold\": \"yes\"}").expect("object");
    let no = parse_slots(&topic, "{\"turnover_over_threshold\": \"no\"}").expect("object");
    let mut runs = Vec::new();
    assert!(matches!(after_sample(&topic, 2, &mut runs, Ok(yes.clone())), SampleStep::Again));
    match after_sample(&topic, 2, &mut runs, Ok(yes.clone())) {
        SampleStep::Facts(f) => assert_eq!(f, vec!["turnover_over_threshold(yes)".to_string()]),
        other => panic!("expected facts, got {other:?}"),
    }
    let mut runs = vec![yes];
    match after_sample(&topic, 2, &mut runs, Ok(no)) {
        SampleStep::Facts(f) => assert!(f.is_empty()),
        other => panic!("expected facts, got {other:?}"),
    }
    let mut runs = Vec::new();
    match after_sample(&topic, 3, &mut runs, Err(EngineError::Claude("is_error".to_string()))) {
        SampleStep::Failed(e) => assert_eq!(e, EngineError::Claude("is_error".to_string())),
        other => panic!("expected failure, got {other:?}"),
    }
    assert!(runs.is_empty());
}
