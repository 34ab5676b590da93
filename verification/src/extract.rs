//! The neural side's deterministic half: recovering the JSON object from the model's
//! reason-then-emit output, fencing every slot value to the topic's vocabulary, and
//! turning fenced slots into solver facts. The model never emits a predicate itself.
use vstd::prelude::*;
use vstd::string::*;
use crate::json::{json_object_members, member_lookup, member_string, parse_object_members};
use crate::slots::SlotMap;
use crate::text::{
    chars_of, find, find_from, join, lemma_join_push, lemma_join_take, replace_all, replace_str, rfind,
    rfind_char, substring, trim, trim_bounds,
};
use crate::types::{EngineError, SlotSpec, Topic};

verus! {

/// The value a slot takes when the case does not state it.
pub open spec fn unknown() -> Seq<char> {
    "unknown"@
}

pub open spec fn fence_mark() -> Seq<char> {
    seq!['`', '`', '`']
}

/// The next fenced block at or after `from`: the opening fence, then the rest of its
/// line (a language tag), then everything up to the closing fence. Returns the content
/// bounds.
pub open spec fn next_block(s: Seq<char>, from: nat) -> Option<(nat, nat)> {
    match find_from(s, fence_mark(), from) {
        None => None,
        Some(open) => match find_from(s, seq!['\n'], open + 3) {
            None => None,
            Some(nl) => match find_from(s, fence_mark(), nl + 1) {
                None => None,
                Some(close) => Some(((nl + 1) as nat, close)),
            },
        },
    }
}

pub proof fn lemma_find_from_bounds(s: Seq<char>, pat: Seq<char>, from: nat)
    ensures
        find_from(s, pat, from) matches Some(i) ==> from <= i && i + pat.len() <= s.len()
            && s.subrange(i as int, (i + pat.len()) as int) == pat,
    decreases s.len() + 1 - from,
{
    if from + pat.len() <= s.len() && s.subrange(from as int, (from + pat.len()) as int) != pat {
        lemma_find_from_bounds(s, pat, from + 1);
    }
}

pub proof fn lemma_next_block_bounds(s: Seq<char>, from: nat)
    ensures
        next_block(s, from) matches Some((a, b)) ==> from < a <= b && b + 3 <= s.len(),
{
    lemma_find_from_bounds(s, fence_mark(), from);
    if let Some(open) = find_from(s, fence_mark(), from) {
        lemma_find_from_bounds(s, seq!['\n'], open + 3);
        if let Some(nl) = find_from(s, seq!['\n'], open + 3) {
            lemma_find_from_bounds(s, fence_mark(), nl + 1);
        }
    }
}

/// Walk the fenced blocks from `from` on; the trimmed content of the last one wins,
/// `last` standing for what was seen before `from`.
pub open spec fn last_block_from(s: Seq<char>, from: nat, last: Option<Seq<char>>) -> Option<
    Seq<char>,
>
    decreases s.len() + 1 - from,
{
    match next_block(s, from) {
        None => last,
        Some((a, b)) => {
            proof {
                lemma_next_block_bounds(s, from);
            }
            last_block_from(s, b + 3, Some(trim(s.subrange(a as int, b as int))))
        },
    }
}

/// The trimmed content of the last fenced block of `s` (an optional language tag on the
/// opening fence's line is skipped).
pub open spec fn last_fenced_block_of(s: Seq<char>) -> Option<Seq<char>> {
    last_block_from(s, 0, None)
}

/// The last `{...}` span: from the last `{` through the last `}`, when the last `}` is not
/// before the last `{`.
pub open spec fn last_brace_object_of(s: Seq<char>) -> Option<Seq<char>> {
    match (rfind_char(s, '{'), rfind_char(s, '}')) {
        (Some(a), Some(b)) => if b >= a {
            Some(s.subrange(a as int, (b + 1) as int))
        } else {
            None
        },
        _ => None,
    }
}

/// The JSON object text in a model reply: the last fenced block, else the brace span.
pub open spec fn json_object_of(s: Seq<char>) -> Option<Seq<char>> {
    match last_fenced_block_of(s) {
        Some(b) => Some(b),
        None => last_brace_object_of(s),
    }
}

/// Find the last fenced block's inner content, trimmed.
pub fn last_fenced_block(text: &str) -> (r: Option<String>)
    ensures
        r.deep_view() == last_fenced_block_of(text@),
{
    let s = chars_of(text);
    let fence = vec!['`', '`', '`'];
    let newline = vec!['\n'];
    assert(fence@ =~= fence_mark());
    assert(newline@ =~= seq!['\n']);
    let mut from: usize = 0;
    let mut last: Option<(usize, usize)> = None;
    loop
        invariant
            s@ == text@,
            fence@ == fence_mark(),
            newline@ == seq!['\n'],
            from <= s.len() + 3,
            last matches Some((a, b)) ==> a <= b <= s.len(),
            last_fenced_block_of(s@) == last_block_from(
                s@,
                from as nat,
                match last {
                    Some((a, b)) => Some(s@.subrange(a as int, b as int)),
                    None => None,
                },
            ),
        ensures
            s@ == text@,
            last matches Some((a, b)) ==> a <= b <= s.len(),
            last_fenced_block_of(s@) == match last {
                Some((a, b)) => Some(s@.subrange(a as int, b as int)),
                None => None,
            },
        decreases s.len() + 4 - from,
    {
        proof {
            lemma_find_from_bounds(s@, fence_mark(), from as nat);
        }
        let open = match find(&s, &fence, from) {
            Some(i) => i,
            None => break,
        };
        proof {
            lemma_find_from_bounds(s@, seq!['\n'], (open + 3) as nat);
        }
        let nl = match find(&s, &newline, open + 3) {
            Some(i) => i,
            None => break,
        };
        proof {
            lemma_find_from_bounds(s@, fence_mark(), (nl + 1) as nat);
        }
        let close = match find(&s, &fence, nl + 1) {
            Some(i) => i,
            None => break,
        };
        let (a, b) = trim_bounds(&s, nl + 1, close);
        last = Some((a, b));
        from = close + 3;
    }
    match last {
        Some((a, b)) => Some(substring(text, a, b)),
        None => None,
    }
}

/// The last `{...}` span, from the last `{` to the last `}`.
pub fn last_brace_object(text: &str) -> (r: Option<String>)
    ensures
        r.deep_view() == last_brace_object_of(text@),
{
    let s = chars_of(text);
    let start = match rfind(&s, '{') {
        Some(i) => i,
        None => return None,
    };
    let end = match rfind(&s, '}') {
        Some(i) => i,
        None => return None,
    };
    if end >= start {
        Some(substring(text, start, end + 1))
    } else {
        None
    }
}

/// Recover the JSON object: the last fenced block if there is one, else the brace span.
pub fn extract_json_object(text: &str) -> (r: Option<String>)
    ensures
        r.deep_view() == json_object_of(text@),
{
    match last_fenced_block(text) {
        Some(block) => Some(block),
        None => last_brace_object(text),
    }
}

/// The same recovery, for the router (which reads a `{"topic": ...}` object).
pub fn extract_json_object_pub(text: &str) -> (r: Option<String>)
    ensures
        r.deep_view() == json_object_of(text@),
{
    extract_json_object(text)
}

/// `"v"`: a value in double quotes.
pub open spec fn quoted(v: Seq<char>) -> Seq<char> {
    "\""@ + v + "\""@
}

/// The allowed values of a slot, each quoted, then `"unknown"`, separated by ` | `.
pub open spec fn alternatives(allowed: Seq<String>) -> Seq<char> {
    join(allowed.map_values(|v: String| quoted(v@)).push(quoted(unknown())), " | "@)
}

/// One line of the slot vocabulary: `  "slot": "a" | "b" | "unknown"`.
pub open spec fn slot_line(entry: (String, SlotSpec)) -> Seq<char> {
    "  "@ + quoted(entry.0@) + ": "@ + alternatives(entry.1.enum_@)
}

/// The vocabulary lines of every slot, in table order.
pub open spec fn slot_lines(slots: Seq<(String, SlotSpec)>) -> Seq<char> {
    join(slots.map_values(|e: (String, SlotSpec)| slot_line(e)), "\n"@)
}

/// The reason-then-emit instruction for a topic, generated from its slot vocabulary.
pub open spec fn slot_instruction_of(topic: Topic) -> Seq<char> {
    "First reason briefly in plain text about each field the case actually states."@ + "\n"@
        + "Then output the final answer as a JSON object inside a ```json code block, with"@
        + "\n"@ + "EXACTLY these keys and one of the allowed values each:"@ + "\n"@ + "{"@
        + "\n"@ + slot_lines(topic.slots@) + "\n"@ + "}"@ + "\n"@
        + "Use \"unknown\" for any field the case does not clearly and explicitly state."@
}

fn alternatives_text(allowed: &Vec<String>) -> (r: String)
    ensures
        r@ == alternatives(allowed@),
{
    let ghost parts = allowed@.map_values(|v: String| quoted(v@));
    let mut out = String::new();
    let mut i: usize = 0;
    while i < allowed.len()
        invariant
            i <= allowed.len(),
            parts == allowed@.map_values(|v: String| quoted(v@)),
            out@ == join(parts.take(i as int), " | "@),
        decreases allowed.len() - i,
    {
        proof {
            lemma_join_take(parts, " | "@, i as int);
        }
        let ghost before = out@;
        if i > 0 {
            out.append(" | ");
        }
        out.append("\"");
        out.append(allowed[i].as_str());
        out.append("\"");
        assert(out@ =~= join(parts.take(i + 1), " | "@));
        i = i + 1;
    }
    assert(parts.take(allowed.len() as int) =~= parts);
    proof {
        lemma_join_push(parts, " | "@, quoted(unknown()));
    }
    let ghost before = out@;
    if allowed.len() > 0 {
        out.append(" | ");
    }
    out.append("\"unknown\"");
    proof {
        reveal_strlit("\"unknown\"");
        reveal_strlit("unknown");
        reveal_strlit("\"");
        assert("\"unknown\""@ =~= quoted(unknown()));
    }
    assert(out@ =~= alternatives(allowed@));
    out
}

/// Reason-then-emit instruction generated from the topic's slot vocabulary (data-driven).
pub fn slot_instruction(topic: &Topic) -> (r: String)
    requires
        topic.slots_ordered(),
    ensures
        r@ == slot_instruction_of(*topic),
{
    let ghost parts = topic.slots@.map_values(|e: (String, SlotSpec)| slot_line(e));
    let mut lines = String::new();
    let mut i: usize = 0;
    while i < topic.slots.len()
        invariant
            i <= topic.slots.len(),
            parts == topic.slots@.map_values(|e: (String, SlotSpec)| slot_line(e)),
            lines@ == join(parts.take(i as int), "\n"@),
        decreases topic.slots.len() - i,
    {
        proof {
            lemma_join_take(parts, "\n"@, i as int);
        }
        let ghost before = lines@;
        if i > 0 {
            lines.append("\n");
        }
        let alts = alternatives_text(&topic.slots[i].1.enum_);
        lines.append("  \"");
        lines.append(topic.slots[i].0.as_str());
        lines.append("\": ");
        lines.append(alts.as_str());
        proof {
            reveal_strlit("  \"");
            reveal_strlit("\": ");
            reveal_strlit("  ");
            reveal_strlit(": ");
            reveal_strlit("\"");
        }
        assert(lines@ =~= join(parts.take(i + 1), "\n"@));
        i = i + 1;
    }
    assert(parts.take(topic.slots.len() as int) =~= parts);
    let mut out = String::from_str(
        "First reason briefly in plain text about each field the case actually states.",
    );
    out.append("\n");
    out.append("Then output the final answer as a JSON object inside a ```json code block, with");
    out.append("\n");
    out.append("EXACTLY these keys and one of the allowed values each:");
    out.append("\n");
    out.append("{");
    out.append("\n");
    out.append(lines.as_str());
    out.append("\n");
    out.append("}");
    out.append("\n");
    out.append("Use \"unknown\" for any field the case does not clearly and explicitly state.");
    out
}

/// Whether `v` is one of the allowed values.
pub open spec fn in_vocab(allowed: Seq<String>, v: Seq<char>) -> bool {
    exists|j: int| 0 <= j < allowed.len() && allowed[j]@ == v
}

/// The last slot of the table named `name`.
pub open spec fn slot_entry(slots: Seq<(String, SlotSpec)>, name: Seq<char>) -> Option<SlotSpec>
    decreases slots.len(),
{
    if slots.len() == 0 {
        None
    } else if slots.last().0@ == name {
        Some(slots.last().1)
    } else {
        slot_entry(slots.drop_last(), name)
    }
}

/// A slot's fenced value: the member's string value when it is in the slot's vocabulary,
/// else `unknown`.
pub open spec fn fenced_value(
    members: Seq<(Seq<char>, Option<Seq<char>>)>,
    name: Seq<char>,
    spec: SlotSpec,
) -> Seq<char> {
    match member_lookup(members, name) {
        Some(Some(v)) => if in_vocab(spec.enum_@, v) {
            v
        } else {
            unknown()
        },
        _ => unknown(),
    }
}

/// What `parse_slots` holds for `name`: a fenced value for every slot of the topic, nothing
/// for any other name.
pub open spec fn fenced_slot(
    slots: Seq<(String, SlotSpec)>,
    members: Seq<(Seq<char>, Option<Seq<char>>)>,
    name: Seq<char>,
) -> Option<Seq<char>> {
    match slot_entry(slots, name) {
        Some(spec) => Some(fenced_value(members, name, spec)),
        None => None,
    }
}

/// Whether `v` is one of the allowed values.
pub fn is_allowed(allowed: &Vec<String>, v: &str) -> (b: bool)
    ensures
        b == in_vocab(allowed@, v@),
{
    let mut j: usize = 0;
    while j < allowed.len()
        invariant
            j <= allowed.len(),
            forall|k: int| 0 <= k < j ==> allowed@[k]@ != v@,
        decreases allowed.len() - j,
    {
        if crate::text::str_eq(allowed[j].as_str(), v) {
            return true;
        }
        j = j + 1;
    }
    false
}

/// Fence a parsed JSON object's members to the topic's vocabulary: each of the topic's
/// slots gets its member's string value when that is an allowed value, else "unknown".
pub fn fence_members(topic: &Topic, members: &Vec<(String, Option<String>)>) -> (m: SlotMap)
    requires
        topic.slots_ordered(),
    ensures
        forall|k: Seq<char>| m.lookup(k) == fenced_slot(topic.slots@, members.deep_view(), k),
{
    let ghost mv = members.deep_view();
    let mut slots = SlotMap::new();
    let mut i: usize = 0;
    while i < topic.slots.len()
        invariant
            i <= topic.slots.len(),
            mv == members.deep_view(),
            forall|k: Seq<char>|
                slots.lookup(k) == fenced_slot(topic.slots@.take(i as int), mv, k),
        decreases topic.slots.len() - i,
    {
        let name = &topic.slots[i].0;
        let spec = &topic.slots[i].1;
        let value = match member_string(members, name.as_str()) {
            Some(s) => if is_allowed(&spec.enum_, s.as_str()) {
                s
            } else {
                String::from_str("unknown")
            },
            None => String::from_str("unknown"),
        };
        slots.insert(name.clone(), value);
        proof {
            let t = topic.slots@.take(i + 1);
            assert(t.drop_last() =~= topic.slots@.take(i as int));
            assert(t.last() == topic.slots@[i as int]);
        }
        i = i + 1;
    }
    assert(topic.slots@.take(topic.slots.len() as int) =~= topic.slots@);
    slots
}

/// Parse the model output into fenced slot values. `None` when no JSON object is present
/// or it does not parse as an object. Every slot is forced to a known value or "unknown".
pub fn parse_slots(topic: &Topic, text: &str) -> (r: Option<SlotMap>)
    requires
        topic.slots_ordered(),
    ensures
        r is Some <==> (json_object_of(text@) matches Some(j) && json_object_members(j) is Some),
        r matches Some(m) ==> forall|k: Seq<char>|
            m.lookup(k) == fenced_slot(
                topic.slots@,
                json_object_members(json_object_of(text@)->0)->0,
                k,
            ),
{
    let json = match extract_json_object(text) {
        Some(j) => j,
        None => return None,
    };
    let members = match parse_object_members(json.as_str()) {
        Some(m) => m,
        None => return None,
    };
    Some(fence_members(topic, &members))
}

/// The facts that fenced slots give, in table order: each slot whose value is known and in
/// its vocabulary yields its template with `{}` replaced by the value.
pub open spec fn facts_of(slots: Seq<(String, SlotSpec)>, m: SlotMap) -> Seq<Seq<char>>
    decreases slots.len(),
{
    if slots.len() == 0 {
        Seq::empty()
    } else {
        let before = facts_of(slots.drop_last(), m);
        let (name, spec) = slots.last();
        match m.lookup(name@) {
            Some(v) => if v != unknown() && in_vocab(spec.enum_@, v) {
                before.push(replace_all(spec.fact_template@, "{}"@, v))
            } else {
                before
            },
            None => before,
        }
    }
}

/// Turn fenced slots into facts. Skips "unknown" and any out-of-vocabulary value.
pub fn slots_to_facts(topic: &Topic, slots: &SlotMap) -> (facts: Vec<String>)
    requires
        topic.slots_ordered(),
    ensures
        facts.deep_view() == facts_of(topic.slots@, *slots),
{
    let mut facts: Vec<String> = Vec::new();
    let mut i: usize = 0;
    while i < topic.slots.len()
        invariant
            i <= topic.slots.len(),
            facts.deep_view() == facts_of(topic.slots@.take(i as int), *slots),
        decreases topic.slots.len() - i,
    {
        proof {
            let t = topic.slots@.take(i + 1);
            assert(t.drop_last() =~= topic.slots@.take(i as int));
            assert(t.last() == topic.slots@[i as int]);
        }
        let ghost before = facts.deep_view();
        let name = &topic.slots[i].0;
        let spec = &topic.slots[i].1;
        if let Some(v) = slots.get(name.as_str()) {
            proof {
                reveal_strlit("unknown");
            }
            if !crate::text::str_eq(v.as_str(), "unknown") && is_allowed(&spec.enum_, v.as_str()) {
                proof {
                    reveal_strlit("{}");
                }
                let fact = replace_str(spec.fact_template.as_str(), "{}", v.as_str());
                facts.push(fact);
                assert(facts.deep_view() =~= before.push(fact@));
            }
        }
        i = i + 1;
    }
    assert(topic.slots@.take(topic.slots.len() as int) =~= topic.slots@);
    facts
}

/// The value that every sample agrees on for a slot, else `unknown`. A sample that
/// lacks the slot agrees with nothing.
pub open spec fn agreed_value(runs: Seq<SlotMap>, name: Seq<char>) -> Seq<char> {
    let first = match runs[0].lookup(name) {
        Some(v) => v,
        None => unknown(),
    };
    if forall|r: int| 0 <= r < runs.len() ==> #[trigger] runs[r].lookup(name) == Some(first) {
        first
    } else {
        unknown()
    }
}

/// Selective prediction: keep a slot's value only if every sample agrees on it; any
/// disagreement makes it "unknown". The result holds exactly the topic's slots.
pub fn merge_samples(topic: &Topic, runs: &Vec<SlotMap>) -> (merged: SlotMap)
    requires
        topic.slots_ordered(),
        runs.len() > 0,
    ensures
        forall|k: Seq<char>|
            merged.lookup(k) == match slot_entry(topic.slots@, k) {
                Some(_) => Some(agreed_value(runs@, k)),
                None => None,
            },
{
    let mut merged = SlotMap::new();
    let mut i: usize = 0;
    while i < topic.slots.len()
        invariant
            i <= topic.slots.len(),
            runs.len() > 0,
            forall|k: Seq<char>|
                merged.lookup(k) == match slot_entry(topic.slots@.take(i as int), k) {
                    Some(_) => Some(agreed_value(runs@, k)),
                    None => None,
                },
        decreases topic.slots.len() - i,
    {
        let name = &topic.slots[i].0;
        let first = match runs[0].get(name.as_str()) {
            Some(v) => v.clone(),
            None => String::from_str("unknown"),
        };
        let mut all_agree = true;
        let mut r: usize = 0;
        while r < runs.len()
            invariant
                r <= runs.len(),
                all_agree == forall|q: int| 0 <= q < r ==> #[trigger] runs@[q].lookup(name@) == Some(
                    first@,
                ),
            decreases runs.len() - r,
        {
            let agrees = match runs[r].get(name.as_str()) {
                Some(v) => *v == first,
                None => false,
            };
            all_agree = all_agree && agrees;
            r = r + 1;
        }
        let value = if all_agree {
            first
        } else {
            String::from_str("unknown")
        };
        merged.insert(name.clone(), value);
        proof {
            let t = topic.slots@.take(i + 1);
            assert(t.drop_last() =~= topic.slots@.take(i as int));
            assert(t.last() == topic.slots@[i as int]);
        }
        i = i + 1;
    }
    assert(topic.slots@.take(topic.slots.len() as int) =~= topic.slots@);
    merged
}

/// Whether `facts` are what the samples' merge gives: the facts of a slot table holding,
/// for each of the topic's slots, the value every sample agrees on.
pub open spec fn merged_facts(topic: Topic, runs: Seq<SlotMap>, facts: Seq<Seq<char>>) -> bool {
    exists|m: SlotMap|
        #![trigger facts_of(topic.slots@, m)]
        (forall|k: Seq<char>|
            m.lookup(k) == match slot_entry(topic.slots@, k) {
                Some(_) => Some(agreed_value(runs, k)),
                None => None,
            }) && facts == facts_of(topic.slots@, m)
}

/// What extraction does after a sample.
#[derive(Debug)]
pub enum SampleStep {
    /// Draw another sample.
    Again,
    /// A sample failed: the extraction fails and the caller abstains.
    Failed(EngineError),
    /// Every sample came back: the facts of their merge.
    Facts(Vec<String>),
}

/// After one extraction sample: a failed sample fails the extraction; a good one is kept,
/// and once `wanted` samples are in, the result is the facts of their merge; until then,
/// sample again.
pub fn after_sample(
    topic: &Topic,
    wanted: usize,
    runs: &mut Vec<SlotMap>,
    sample: Result<SlotMap, EngineError>,
) -> (r: SampleStep)
    requires
        topic.slots_ordered(),
        old(runs).len() < wanted,
    ensures
        match sample {
            Err(e) => r == SampleStep::Failed(e) && final(runs)@ == old(runs)@,
            Ok(m) => final(runs)@ == old(runs)@.push(m) && if final(runs).len() < wanted {
                r == SampleStep::Again
            } else {
                r matches SampleStep::Facts(f) && merged_facts(*topic, final(runs)@, f.deep_view())
            },
        },
{
    match sample {
        Err(e) => SampleStep::Failed(e),
        Ok(m) => {
            runs.push(m);
            if runs.len() < wanted {
                SampleStep::Again
            } else {
                let merged = merge_samples(topic, runs);
                let facts = slots_to_facts(topic, &merged);
                assert(merged_facts(*topic, runs@, facts.deep_view()));
                SampleStep::Facts(facts)
            }
        },
    }
}

/// How many samples to draw: the configured count, at least one.
pub fn extract_samples(configured: Option<usize>) -> (n: usize)
    ensures
        n == match configured {
            Some(c) => if c >= 1 {
                c
            } else {
                1
            },
            None => 1,
        },
{
    match configured {
        Some(c) => if c >= 1 {
            c
        } else {
            1
        },
        None => 1,
    }
}

/// The extraction system prompt: the topic's prompt, a blank line, then the vocabulary
/// instruction.
pub fn extraction_system_prompt(topic: &Topic) -> (r: String)
    requires
        topic.slots_ordered(),
    ensures
        r@ == topic.system_prompt@ + "\n\n"@ + slot_instruction_of(*topic),
{
    let instruction = slot_instruction(topic);
    let mut r = topic.system_prompt.clone();
    r.append("\n\n");
    r.append(instruction.as_str());
    r
}

/// One prior lesson as a few-shot line: `- title: content`.
pub open spec fn lesson_line(e: (String, String)) -> Seq<char> {
    "- "@ + e.0@ + ": "@ + e.1@
}

/// The extraction user prompt: the prior lessons (if any) as few-shot lines, then the case.
pub open spec fn extraction_prompt_of(question: Seq<char>, examples: Seq<(String, String)>) -> Seq<
    char,
> {
    let fewshot = join(examples.map_values(|e: (String, String)| lesson_line(e)), "\n"@);
    if fewshot.len() == 0 {
        "Case:\n"@ + question
    } else {
        "Prior lessons:\n"@ + fewshot + "\n\nCase:\n"@ + question
    }
}

/// Build the extraction user prompt from the question and (title, content) prior lessons.
pub fn extraction_prompt(question: &str, examples: &Vec<(String, String)>) -> (r: String)
    ensures
        r@ == extraction_prompt_of(question@, examples@),
{
    let ghost parts = examples@.map_values(|e: (String, String)| lesson_line(e));
    let mut fewshot = String::new();
    let mut i: usize = 0;
    while i < examples.len()
        invariant
            i <= examples.len(),
            parts == examples@.map_values(|e: (String, String)| lesson_line(e)),
            fewshot@ == join(parts.take(i as int), "\n"@),
        decreases examples.len() - i,
    {
        proof {
            lemma_join_take(parts, "\n"@, i as int);
        }
        let ghost before = fewshot@;
        if i > 0 {
            fewshot.append("\n");
        }
        fewshot.append("- ");
        fewshot.append(examples[i].0.as_str());
        fewshot.append(": ");
        fewshot.append(examples[i].1.as_str());
        assert(fewshot@ =~= join(parts.take(i + 1), "\n"@));
        i = i + 1;
    }
    assert(parts.take(examples.len() as int) =~= parts);
    if fewshot.as_str().is_empty() {
        let mut r = String::from_str("Case:\n");
        r.append(question);
        r
    } else {
        let mut r = String::from_str("Prior lessons:\n");
        r.append(fewshot.as_str());
        r.append("\n\nCase:\n");
        r.append(question);
        r
    }
}

/// Judge one extraction sample: a reply flagged as an error, or one with no parseable slot
/// object, fails (the caller abstains); otherwise its fenced slots.
pub fn accept_sample(topic: &Topic, is_error: bool, reply: &str) -> (r: Result<SlotMap, EngineError>)
    requires
        topic.slots_ordered(),
    ensures
        is_error ==> (r matches Err(EngineError::Claude(m)) && m@ == "is_error"@),
        !is_error ==> match r {
            Ok(m) => (json_object_of(reply@) matches Some(j) && json_object_members(j) is Some)
                && forall|k: Seq<char>|
                m.lookup(k) == fenced_slot(
                    topic.slots@,
                    json_object_members(json_object_of(reply@)->0)->0,
                    k,
                ),
            Err(e) => !(json_object_of(reply@) matches Some(j) && json_object_members(j) is Some)
                && (e matches EngineError::Claude(m) && m@ == "no parseable JSON slots"@),
        },
{
    if is_error {
        return Err(EngineError::Claude(String::from_str("is_error")));
    }
    match parse_slots(topic, reply) {
        Some(m) => Ok(m),
        None => Err(EngineError::Claude(String::from_str("no parseable JSON slots"))),
    }
}

/// Enum-fence law: after parsing, exactly the topic's slots hold a value, and every value
/// is in its slot's vocabulary or is `unknown`; the model can never put any other value
/// in a slot.
pub proof fn lemma_fence(
    slots: Seq<(String, SlotSpec)>,
    members: Seq<(Seq<char>, Option<Seq<char>>)>,
    name: Seq<char>,
)
    ensures
        fenced_slot(slots, members, name) is Some <==> slot_entry(slots, name) is Some,
        fenced_slot(slots, members, name) matches Some(v) ==> v == unknown() || in_vocab(
            slot_entry(slots, name)->0.enum_@,
            v,
        ),
{
}

/// Whether `fact` is what slot `entry` yields under `m`: its value is known and in the
/// slot's vocabulary, and the fact is the template with the value put in.
pub open spec fn fact_from_slot(m: SlotMap, entry: (String, SlotSpec), fact: Seq<char>) -> bool {
    match m.lookup(entry.0@) {
        Some(v) => v != unknown() && in_vocab(entry.1.enum_@, v) && fact == replace_all(
            entry.1.fact_template@,
            "{}"@,
            v,
        ),
        None => false,
    }
}

/// Whether some slot of the table yields `fact` under `m`.
pub open spec fn has_source_slot(m: SlotMap, slots: Seq<(String, SlotSpec)>, fact: Seq<char>) -> bool {
    exists|j: int| 0 <= j < slots.len() && #[trigger] fact_from_slot(m, slots[j], fact)
}

/// Fact law: every fact comes from one slot whose value is known and in that slot's
/// vocabulary (its template with the value put in), and no slot yields more than one.
pub proof fn lemma_facts_from_known_values(slots: Seq<(String, SlotSpec)>, m: SlotMap)
    ensures
        facts_of(slots, m).len() <= slots.len(),
        forall|i: int|
            0 <= i < facts_of(slots, m).len() ==> has_source_slot(
                m,
                slots,
                #[trigger] facts_of(slots, m)[i],
            ),
    decreases slots.len(),
{
    if slots.len() > 0 {
        let d = slots.drop_last();
        lemma_facts_from_known_values(d, m);
        let fd = facts_of(d, m);
        assert forall|i: int| 0 <= i < facts_of(slots, m).len() implies has_source_slot(
            m,
            slots,
            #[trigger] facts_of(slots, m)[i],
        ) by {
            if i < fd.len() {
                assert(facts_of(slots, m)[i] == fd[i]);
                assert(has_source_slot(m, d, fd[i]));
                let j = choose|j: int| 0 <= j < d.len() && #[trigger] fact_from_slot(m, d[j], fd[i]);
                assert(slots[j] == d[j]);
                assert(fact_from_slot(m, slots[j], facts_of(slots, m)[i]));
            } else {
                let j = slots.len() - 1;
                assert(slots[j] == slots.last());
                assert(fact_from_slot(m, slots[j], facts_of(slots, m)[i]));
            }
        }
    } else {
        assert(facts_of(slots, m).len() == 0);
    }
}

/// Selective-prediction law: a slot keeps a value other than `unknown` only when every
/// sample gave that very value.
pub proof fn lemma_kept_only_if_unanimous(runs: Seq<SlotMap>, name: Seq<char>)
    requires
        runs.len() > 0,
    ensures
        agreed_value(runs, name) != unknown() ==> forall|r: int|
            0 <= r < runs.len() ==> #[trigger] runs[r].lookup(name) == Some(agreed_value(runs, name)),
{
}

} // verus!
