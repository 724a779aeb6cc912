//! JSON values as the library reads them, and looking up an object's keys.

use vstd::prelude::*;
use crate::text::str_equals;

verus! {

/// A JSON value.
pub enum Json {
    Null,
    Bool(bool),
    /// A number, with its value when that is a whole number from 0 to
    /// `u64::MAX`.
    Number(Option<u64>),
    Str(String),
    Array(Vec<Json>),
    /// An object's members in order; keys occur once.
    Object(Vec<(String, Json)>),
}

/// The value of `key` among the members, or `Null` when there is none
/// (the first member with the key counts).
pub open spec fn member(entries: Seq<(String, Json)>, key: Seq<char>) -> Json
    decreases entries.len(),
{
    if entries.len() == 0 {
        Json::Null
    } else if entries[0].0@ == key {
        entries[0].1
    } else {
        member(entries.skip(1), key)
    }
}

/// `value[key]`: the member of an object, `Null` for anything else.
pub open spec fn at(value: Json, key: Seq<char>) -> Json {
    match value {
        Json::Object(e) => member(e@, key),
        _ => Json::Null,
    }
}

/// Some member has the key.
pub open spec fn has_member(entries: Seq<(String, Json)>, key: Seq<char>) -> bool {
    exists|i: int| 0 <= i < entries.len() && #[trigger] entries[i].0@ == key
}

/// Position of the first member with the key, if any.
pub fn find_member(entries: &Vec<(String, Json)>, key: &str) -> (r: Option<usize>)
    ensures
        match r {
            Some(i) => i < entries@.len() && member(entries@, key@) == entries@[i as int].1
                && entries@[i as int].0@ == key@,
            None => member(entries@, key@) == Json::Null && !has_member(entries@, key@),
        },
{
    let mut i: usize = 0;
    proof { assert(entries@.skip(0) =~= entries@); }
    while i < entries.len()
        invariant
            i <= entries@.len(),
            member(entries@, key@) == member(entries@.skip(i as int), key@),
            forall|j: int| 0 <= j < i ==> #[trigger] entries@[j].0@ != key@,
        decreases entries@.len() - i,
    {
        proof {
            let s = entries@.skip(i as int);
            assert(s[0] == entries@[i as int]);
            assert(s.skip(1) =~= entries@.skip(i + 1));
        }
        if str_equals(entries[i].0.as_str(), key) {
            return Some(i);
        }
        i = i + 1;
    }
    None
}

} // verus!

verus! {

/// `serde_json::Value`, carried through as it is.
#[verifier::external_type_specification]
#[verifier::external_body]
pub struct ExJsonValue(serde_json::Value);

/// The value `serde_json::from_str` reads from a JSON text, in the
/// library's form (`None` when the text is not JSON).
pub uninterp spec fn json_of(text: Seq<char>) -> Option<Json>;

/// A `serde_json::Value` in the library's form, member for member (object
/// members in `serde_json`'s order, numbers by `as_u64`). It only changes
/// the value's type; `parse_json` states what comes out.
#[verifier::external_body]
fn json_from_value(v: &serde_json::Value) -> Json {
    match v {
        serde_json::Value::Null => Json::Null,
        serde_json::Value::Bool(b) => Json::Bool(*b),
        serde_json::Value::Number(n) => Json::Number(n.as_u64()),
        serde_json::Value::String(s) => Json::Str(s.clone()),
        serde_json::Value::Array(a) => Json::Array(a.iter().map(json_from_value).collect()),
        serde_json::Value::Object(m) => Json::Object(m.iter().map(|(k, x)| (k.clone(), json_from_value(x))).collect()),
    }
}

/// `serde_json::from_str::<serde_json::Value>` on the text, the value
/// handed out in the library's form.
#[verifier::external_body]
pub(crate) fn parse_json(text: &str) -> (r: Option<Json>)
    ensures
        r == json_of(text@),
{
    serde_json::from_str::<serde_json::Value>(text).ok().map(|v| json_from_value(&v))
}

} // verus!
