//! The ask pipeline's decisions (route → retrieve → extract → solve → gate). The host runs
//! the stages that call the model, read the rules and store the episode; every way out of
//! the pipeline goes through one of the functions here, so every failure is an abstain
//! and every ask leaves an episode.
use vstd::prelude::*;
use crate::gate::{answerable, gate, gate_failure};
use crate::types::{EngineError, EpisodeInput, Outcome, SolverResult, StrategyItem, Topic, error_message};

verus! {

/// The episode recorded for an ask: decision and citations from the outcome; the status
/// is `solved` for an answer and the abstain reason otherwise.
pub open spec fn is_episode_for(
    e: EpisodeInput,
    topic: Option<Seq<char>>,
    question: Seq<char>,
    as_of_date: Seq<char>,
    facts: Option<Seq<String>>,
    out: Outcome,
) -> bool {
    &&& e.topic.deep_view() == topic
    &&& e.question@ == question
    &&& e.as_of_date@ == as_of_date
    &&& match (e.facts, facts) {
        (Some(f), Some(g)) => f@ == g,
        (None, None) => true,
        _ => false,
    }
    &&& match out {
        Outcome::Answer { decision, citations, .. } => {
            &&& e.decision == Some(decision)
            &&& e.status@ == "solved"@
            &&& e.citations@ == citations@
        },
        Outcome::Abstain { reason } => {
            &&& e.decision is None
            &&& e.status@ == reason@
            &&& e.citations@.len() == 0
        },
    }
}

fn clone_strings(v: &[String]) -> (r: Vec<String>)
    ensures
        r@ == v@,
{
    let mut r: Vec<String> = Vec::new();
    let mut i: usize = 0;
    while i < v.len()
        invariant
            i <= v.len(),
            r@ == v@.take(i as int),
        decreases v.len() - i,
    {
        r.push(v[i].clone());
        assert(r@ =~= v@.take(i + 1));
        i = i + 1;
    }
    assert(v@.take(v.len() as int) =~= v@);
    r
}

/// Build the episode captured for every ask (the raw material a correction attaches to).
pub fn episode_for(
    topic: Option<&str>,
    question: &str,
    as_of_date: &str,
    facts: Option<&[String]>,
    out: &Outcome,
) -> (e: EpisodeInput)
    ensures
        is_episode_for(
            e,
            match topic {
                Some(t) => Some(t@),
                None => None,
            },
            question@,
            as_of_date@,
            match facts {
                Some(f) => Some(f@),
                None => None,
            },
            *out,
        ),
{
    let (decision, status, citations) = match out {
        Outcome::Answer { decision, citations, .. } => {
            let c = clone_strings(citations.as_slice());
            (Some(decision.clone()), String::from_str("solved"), c)
        },
        Outcome::Abstain { reason } => (None, reason.clone(), Vec::new()),
    };
    EpisodeInput {
        topic: match topic {
            Some(t) => Some(String::from_str(t)),
            None => None,
        },
        question: String::from_str(question),
        as_of_date: String::from_str(as_of_date),
        facts: match facts {
            Some(f) => Some(clone_strings(f)),
            None => None,
        },
        decision,
        status,
        citations,
    }
}

/// Whether `r` is the refusal of a question for `reason`: an abstention with the reason
/// behind the `infra_failure:` prefix, and the episode recorded for it.
pub open spec fn is_refusal(
    r: (Outcome, EpisodeInput),
    topic: Option<Seq<char>>,
    question: Seq<char>,
    as_of_date: Seq<char>,
    facts: Option<Seq<String>>,
    reason: Seq<char>,
) -> bool {
    &&& r.0 matches Outcome::Abstain { reason: m } && m@ == "infra_failure:"@ + reason
    &&& is_episode_for(r.1, topic, question, as_of_date, facts, r.0)
}

/// A pipeline stage failed: abstain with the `infra_failure:` reason, and record the
/// episode with what the stages before it produced.
pub fn refuse(
    topic: Option<&str>,
    question: &str,
    as_of_date: &str,
    facts: Option<&[String]>,
    reason: &str,
) -> (r: (Outcome, EpisodeInput))
    ensures
        is_refusal(
            r,
            match topic {
                Some(t) => Some(t@),
                None => None,
            },
            question@,
            as_of_date@,
            match facts {
                Some(f) => Some(f@),
                None => None,
            },
            reason@,
        ),
{
    let out = gate_failure(reason);
    let episode = episode_for(topic, question, as_of_date, facts, &out);
    (out, episode)
}

/// The pipeline ran to the solver: gate its result, and record the episode with the
/// solver's own status (solved / abstain / conflict / schema_invalid).
pub fn conclude(
    topic: &str,
    question: &str,
    as_of_date: &str,
    facts: &[String],
    result: &SolverResult,
) -> (r: (Outcome, EpisodeInput))
    ensures
        answerable(*result) ==> (r.0 matches Outcome::Answer { decision, citations, justification }
            && decision == result.decision->0 && citations@ == result.citations@
            && justification@ == result.justification@),
        !answerable(*result) ==> (r.0 matches Outcome::Abstain { reason } && reason@
            == result.status@),
        r.1.topic.deep_view() == Some(topic@),
        r.1.question@ == question@,
        r.1.as_of_date@ == as_of_date@,
        r.1.facts matches Some(f) && f@ == facts@,
        r.1.status@ == result.status@,
        match r.0 {
            Outcome::Answer { decision, citations, .. } => r.1.decision == Some(decision)
                && r.1.citations@ == citations@,
            Outcome::Abstain { .. } => r.1.decision is None && r.1.citations@.len() == 0,
        },
{
    let out = gate(result);
    let mut episode = episode_for(Some(topic), question, as_of_date, Some(facts), &out);
    episode.status = result.status.clone();
    (out, episode)
}

/// After routing: the routed topic goes on; no topic refuses as `off_topic`, and a routing
/// error refuses with the error's message.
pub fn after_route(
    question: &str,
    as_of_date: &str,
    routed: Result<Option<Topic>, EngineError>,
) -> (r: Result<Topic, (Outcome, EpisodeInput)>)
    ensures
        match routed {
            Ok(Some(t)) => r == Ok::<Topic, (Outcome, EpisodeInput)>(t),
            Ok(None) => r matches Err(x) && is_refusal(
                x,
                None,
                question@,
                as_of_date@,
                None,
                "off_topic"@,
            ),
            Err(e) => r matches Err(x) && is_refusal(
                x,
                None,
                question@,
                as_of_date@,
                None,
                error_message(e),
            ),
        },
{
    match routed {
        Ok(Some(t)) => Ok(t),
        Ok(None) => Err(refuse(None, question, as_of_date, None, "off_topic")),
        Err(e) => {
            let m = e.message();
            Err(refuse(None, question, as_of_date, None, m.as_str()))
        },
    }
}

/// After extraction: the facts go on; a failed extraction refuses as `extraction_failed`.
pub fn after_extract(
    topic: &str,
    question: &str,
    as_of_date: &str,
    extracted: Result<Vec<String>, EngineError>,
) -> (r: Result<Vec<String>, (Outcome, EpisodeInput)>)
    ensures
        match extracted {
            Ok(f) => r == Ok::<Vec<String>, (Outcome, EpisodeInput)>(f),
            Err(_) => r matches Err(x) && is_refusal(
                x,
                Some(topic@),
                question@,
                as_of_date@,
                None,
                "extraction_failed"@,
            ),
        },
{
    match extracted {
        Ok(f) => Ok(f),
        Err(_) => Err(refuse(Some(topic), question, as_of_date, None, "extraction_failed")),
    }
}

/// After reading the topic's rule set: the rules go on; a failed read refuses as
/// `ruleset_read:` and the read error.
pub fn after_rules_read(
    topic: &str,
    question: &str,
    as_of_date: &str,
    facts: &[String],
    read: Result<String, String>,
) -> (r: Result<String, (Outcome, EpisodeInput)>)
    ensures
        match read {
            Ok(rules) => r == Ok::<String, (Outcome, EpisodeInput)>(rules),
            Err(m) => r matches Err(x) && is_refusal(
                x,
                Some(topic@),
                question@,
                as_of_date@,
                Some(facts@),
                "ruleset_read:"@ + m@,
            ),
        },
{
    match read {
        Ok(rules) => Ok(rules),
        Err(m) => {
            let mut reason = String::from_str("ruleset_read:");
            reason.append(m.as_str());
            Err(refuse(Some(topic), question, as_of_date, Some(facts), reason.as_str()))
        },
    }
}

/// The retrieved lessons as (title, content) few-shot pairs.
pub fn example_pairs(items: &Vec<StrategyItem>) -> (r: Vec<(String, String)>)
    ensures
        r.len() == items.len(),
        forall|i: int|
            0 <= i < items.len() ==> (#[trigger] r@[i]).0 == items@[i].title && r@[i].1
                == items@[i].content,
{
    let mut r: Vec<(String, String)> = Vec::new();
    let mut i: usize = 0;
    while i < items.len()
        invariant
            i <= items.len(),
            r.len() == i,
            forall|j: int|
                0 <= j < i ==> (#[trigger] r@[j]).0 == items@[j].title && r@[j].1
                    == items@[j].content,
        decreases items.len() - i,
    {
        r.push((items[i].title.clone(), items[i].content.clone()));
        i = i + 1;
    }
    r
}

} // verus!
