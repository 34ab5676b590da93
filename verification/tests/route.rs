use accounting_engine::route::{parse_topic_id, route_finish, route_start, routing_prompt, RouteStart};
use accounting_engine::types::Topic;

fn named_topic(id: &str, description: &str) -> Topic {
    Topic {
        id: id.to_string(),
        ruleset: id.replace('-', "_"),
        description: description.to_string(),
        system_prompt: String::new(),
        slots: vec![],
        tags: vec![],
        rules_path: String::new(),
    }
}

#[test]
fn topic_id_is_read_from_the_reply() {
    assert_eq!(
        parse_topic_id("I think\n```json\n{\"topic\": \"dph-registration\"}\n```").as_deref(),
        Some("dph-registration")
    );
    assert_eq!(parse_topic_id("{\"topic\": 3}"), None);
    assert_eq!(parse_topic_id("no json"), None);
}

#[test]
fn one_topic_passes_through_without_a_model_call() {
    match route_start(vec![named_topic("a", "A")]) {
        RouteStart::Decided(Some(t)) => assert_eq!(t.id, "a"),
        _ => panic!("expected passthrough"),
    }
    assert!(matches!(route_start(vec![]), RouteStart::Decided(None)));
    assert!(matches!(
        route_start(vec![named_topic("a", "A"), named_topic("b", "B")]),
        RouteStart::AskModel(_)
    ));
}

#[test]
fn model_reply_picks_a_topic_or_abstains() {
    let topics = vec![named_topic("a", "A"), named_topic("b", "B")];
    assert_eq!(
        route_finish(topics.clone(), false, "{\"topic\": \"b\"}").map(|t| t.id),
        Some("b".to_string())
    );
    assert!(route_finish(topics.clone(), false, "{\"topic\": \"unknown\"}").is_none());
    assert!(route_finish(topics.clone(), false, "{\"topic\": \"zzz\"}").is_none());
    assert!(route_finish(topics, true, "{\"topic\": \"b\"}").is_none());
}

#[test]
fn routing_prompt_lists_topics_then_the_question() {
    let topics = vec![named_topic("a", "A things"), named_topic("b", "B things")];
    assert_eq!(
        routing_prompt(&topics, "Q?"),
        "Topics:\n- a: A things\n- b: B things\n\nWhich single topic does this accounting question fall under? Answer \"unknown\" if none clearly fits.\n\nQuestion:\nQ?"
    );
}
