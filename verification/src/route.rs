//! Fail-closed topic router: question → one topic, or none (⇒ abstain). With a single
//! registered topic the question passes straight through (the extractor's "unknown" fence
//! already abstains on off-topic cases); with two or more, a model picks one topic id or
//! "unknown".
use vstd::prelude::*;
use crate::extract::{extract_json_object, json_object_of};
use crate::json::{json_object_members, member_lookup, member_string, parse_object_members};
use crate::text::{join, lemma_join_take};
use crate::topics::{find_topic, topic_with_id};
use crate::types::Topic;

verus! {

/// The topic id a routing reply names: the string `topic` member of its JSON object.
pub open spec fn topic_id_of(reply: Seq<char>) -> Option<Seq<char>> {
    match json_object_of(reply) {
        Some(j) => match json_object_members(j) {
            Some(m) => match member_lookup(m, "topic"@) {
                Some(Some(id)) => Some(id),
                _ => None,
            },
            None => None,
        },
        None => None,
    }
}

/// Read the topic id out of a routing reply.
pub fn parse_topic_id(text: &str) -> (r: Option<String>)
    ensures
        r.deep_view() == topic_id_of(text@),
{
    let json = match extract_json_object(text) {
        Some(j) => j,
        None => return None,
    };
    let members = match parse_object_members(json.as_str()) {
        Some(m) => m,
        None => return None,
    };
    member_string(&members, "topic")
}

/// How routing proceeds before any model call.
#[derive(Debug)]
pub enum RouteStart {
    /// Routing is decided without a model call: no topic registered (abstain), or the one
    /// registered topic.
    Decided(Option<Topic>),
    /// Two or more topics: a model must pick.
    AskModel(Vec<Topic>),
}

/// Route without a model call where the topic count allows it.
pub fn route_start(topics: Vec<Topic>) -> (r: RouteStart)
    ensures
        topics.len() == 0 ==> r == RouteStart::Decided(None),
        topics.len() == 1 ==> r == RouteStart::Decided(Some(topics@[0])),
        topics.len() > 1 ==> r == RouteStart::AskModel(topics),
{
    if topics.len() == 0 {
        return RouteStart::Decided(None);
    }
    if topics.len() == 1 {
        let mut topics = topics;
        let t = topics.swap_remove(0);
        return RouteStart::Decided(Some(t));
    }
    RouteStart::AskModel(topics)
}

/// One topic as a routing-list line: `- id: description`.
pub open spec fn topic_line(t: Topic) -> Seq<char> {
    "- "@ + t.id@ + ": "@ + t.description@
}

/// The routing prompt: the topic list, the question to the model, then the question.
pub open spec fn routing_prompt_of(topics: Seq<Topic>, question: Seq<char>) -> Seq<char> {
    "Topics:\n"@ + join(topics.map_values(|t: Topic| topic_line(t)), "\n"@)
        + "\n\nWhich single topic does this accounting question fall under? Answer \"unknown\" if none clearly fits.\n\nQuestion:\n"@
        + question
}

/// Build the routing prompt.
pub fn routing_prompt(topics: &Vec<Topic>, question: &str) -> (r: String)
    ensures
        r@ == routing_prompt_of(topics@, question@),
{
    let ghost parts = topics@.map_values(|t: Topic| topic_line(t));
    let mut list = String::new();
    let mut i: usize = 0;
    while i < topics.len()
        invariant
            i <= topics.len(),
            parts == topics@.map_values(|t: Topic| topic_line(t)),
            list@ == join(parts.take(i as int), "\n"@),
        decreases topics.len() - i,
    {
        proof {
            lemma_join_take(parts, "\n"@, i as int);
        }
        if i > 0 {
            list.append("\n");
        }
        list.append("- ");
        list.append(topics[i].id.as_str());
        list.append(": ");
        list.append(topics[i].description.as_str());
        assert(list@ =~= join(parts.take(i + 1), "\n"@));
        i = i + 1;
    }
    assert(parts.take(topics.len() as int) =~= parts);
    let mut r = String::from_str("Topics:\n");
    r.append(list.as_str());
    r.append(
        "\n\nWhich single topic does this accounting question fall under? Answer \"unknown\" if none clearly fits.\n\nQuestion:\n",
    );
    r.append(question);
    r
}

/// The routing system prompt.
pub fn routing_system_prompt() -> (r: &'static str)
    ensures
        r@ == "You route a Czech accounting question to exactly one topic id, or \"unknown\" if none clearly applies. Reason briefly, then output a JSON object in a ```json fence with key \"topic\" set to one of the topic ids or \"unknown\"."@,
{
    "You route a Czech accounting question to exactly one topic id, or \"unknown\" if none clearly applies. Reason briefly, then output a JSON object in a ```json fence with key \"topic\" set to one of the topic ids or \"unknown\"."
}

/// The topic a model's routing reply picks: none for an error reply, a reply without a
/// topic id, or `unknown`; otherwise the first topic with that id, if any.
pub open spec fn routed_topic(topics: Seq<Topic>, is_error: bool, reply: Seq<char>) -> Option<Topic> {
    if is_error {
        None
    } else {
        match topic_id_of(reply) {
            Some(id) => if id == "unknown"@ {
                None
            } else {
                topic_with_id(topics, id)
            },
            None => None,
        }
    }
}

/// Finish routing from the model's reply.
pub fn route_finish(topics: Vec<Topic>, is_error: bool, reply: &str) -> (r: Option<Topic>)
    ensures
        r == routed_topic(topics@, is_error, reply@),
{
    if is_error {
        return None;
    }
    let id = match parse_topic_id(reply) {
        Some(id) => id,
        None => return None,
    };
    if crate::text::str_eq(id.as_str(), "unknown") {
        return None;
    }
    find_topic(topics, id.as_str())
}

} // verus!
