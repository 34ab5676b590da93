use accounting_engine::topics::{find_topic, sort_topics_by_id};
use accounting_engine::types::{SlotSpec, Topic};

fn bare_topic(id: &str, description: &str) -> Topic {
    Topic {
        id: id.to_string(),
        ruleset: String::new(),
        description: description.to_string(),
        system_prompt: String::new(),
        slots: vec![],
        tags: vec![],
        rules_path: String::new(),
    }
}

#[test]
fn unknown_topic_is_none() {
    let topics = vec![bare_topic("dph-registration", "r"), bare_topic("dph-reverse-charge", "rc")];
    assert!(find_topic(topics.clone(), "nope").is_none());
    assert_eq!(
        find_topic(topics, "dph-reverse-charge").map(|t| t.description),
        Some("rc".to_string())
    );
}

#[test]
fn topics_are_listed_by_id_stably() {
    let topics = vec![
        bare_topic("dph-reverse-charge", "1"),
        bare_topic("dph-registration", "2"),
        bare_topic("dph-reverse-charge", "3"),
        bare_topic("a", "4"),
    ];
    let order: Vec<String> = sort_topics_by_id(topics).into_iter().map(|t| t.description).collect();
    assert_eq!(order, vec!["4", "2", "1", "3"]);
}

#[test]
fn slot_table_order_is_checked() {
    let spec = SlotSpec { enum_: vec!["x".to_string()], fact_template: "f({})".to_string() };
    let mut t = bare_topic("t", "d");
    assert!(t.slots_are_ordered());
    t.insert_slot("b".to_string(), spec.clone());
    t.insert_slot("a".to_string(), spec.clone());
    assert!(t.slots_are_ordered());
    t.slots.push(("a".to_string(), spec.clone()));
    assert!(!t.slots_are_ordered());
    let mut u = bare_topic("u", "d");
    u.slots = vec![("b".to_string(), spec.clone()), ("a".to_string(), spec)];
    assert!(!u.slots_are_ordered());
}
