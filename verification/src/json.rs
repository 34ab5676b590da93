//! The one JSON read the engine makes: the members of a JSON object, each with its string
//! value where it has one.
use vstd::prelude::*;
use serde_json::Value;

verus! {

/// What `serde_json::from_str::<serde_json::Value>` reads from `text`, when that is an
/// object: its members as (key, string value if the member's value is a JSON string),
/// in the order that `serde_json::Map` yields them. `None` when the text does not parse
/// or is not an object.
pub uninterp spec fn json_object_members(text: Seq<char>) -> Option<
    Seq<(Seq<char>, Option<Seq<char>>)>,
>;

/// Calls `serde_json::from_str::<serde_json::Value>` and, for an object, hands out its
/// members with the string payload of each `Value::String`. Claimed: the result is
/// `json_object_members` of the text; what the parser accepts is not stated.
#[verifier::external_body]
pub(crate) fn parse_object_members(text: &str) -> (res: Option<Vec<(String, Option<String>)>>)
    ensures
        res.deep_view() == json_object_members(text@),
{
    let map = match serde_json::from_str::<Value>(text) {
        Ok(Value::Object(map)) => map,
        Ok(Value::Null | Value::Bool(_) | Value::Number(_) | Value::String(_) | Value::Array(_)) => return None,
        Err(_) => return None,
    };
    let mut out = Vec::new();
    for (key, value) in map {
        out.push((key, match value {
            Value::String(s) => Some(s),
            Value::Null | Value::Bool(_) | Value::Number(_) | Value::Array(_) | Value::Object(_) => None,
        }));
    }
    Some(out)
}

/// The value of the first member named `key`.
pub open spec fn member_lookup(members: Seq<(Seq<char>, Option<Seq<char>>)>, key: Seq<char>) -> Option<
    Option<Seq<char>>,
>
    decreases members.len(),
{
    if members.len() == 0 {
        None
    } else if members[0].0 == key {
        Some(members[0].1)
    } else {
        member_lookup(members.drop_first(), key)
    }
}

/// The string value of the member named `key`, if the member exists and is a string.
pub fn member_string(members: &Vec<(String, Option<String>)>, key: &str) -> (r: Option<String>)
    ensures
        r.deep_view() == (match member_lookup(members.deep_view(), key@) {
            Some(Some(v)) => Some(v),
            _ => None,
        }),
{
    let mut i: usize = 0;
    assert(members.deep_view().subrange(0, members.len() as int) =~= members.deep_view());
    while i < members.len()
        invariant
            i <= members.len(),
            member_lookup(members.deep_view(), key@) == member_lookup(
                members.deep_view().subrange(i as int, members.len() as int),
                key@,
            ),
        decreases members.len() - i,
    {
        let ghost rest = members.deep_view().subrange(i as int, members.len() as int);
        assert(rest[0] == members.deep_view()[i as int]);
        assert(rest.drop_first() =~= members.deep_view().subrange(i + 1, members.len() as int));
        if crate::text::str_eq(members[i].0.as_str(), key) {
            return match &members[i].1 {
                Some(v) => Some(v.clone()),
                None => None,
            };
        }
        i = i + 1;
    }
    None
}

} // verus!
