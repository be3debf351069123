//! A JSON document read one level at a time.
//!
//! `parse_json` reads a JSON text with `serde_json` and gives back its top
//! value; the elements of an array and the members of an object are kept as
//! JSON texts of their own, read again with `parse_json` where the logic
//! looks into them.

use vstd::prelude::*;
use crate::text::str_eq;
use serde_json::Value;

verus! {

/// The top value of a JSON document; nested values are kept as JSON text.
pub enum Json {
    Null,
    Bool(bool),
    Number(String),
    Str(String),
    Array(Vec<String>),
    Object(Vec<(String, String)>),
}

/// `Json` as values.
pub enum JsonView {
    Null,
    Bool(bool),
    Number(Seq<char>),
    Str(Seq<char>),
    Array(Seq<Seq<char>>),
    Object(Seq<(Seq<char>, Seq<char>)>),
}

impl View for Json {
    type V = JsonView;

    open spec fn view(&self) -> JsonView {
        match self {
            Json::Null => JsonView::Null,
            Json::Bool(b) => JsonView::Bool(*b),
            Json::Number(n) => JsonView::Number(n@),
            Json::Str(s) => JsonView::Str(s@),
            Json::Array(a) => JsonView::Array(a@.map_values(|t: String| t@)),
            Json::Object(m) => JsonView::Object(m@.map_values(|kv: (String, String)| (kv.0@, kv.1@))),
        }
    }
}

/// What `serde_json` reads from `text`: `None` where the text is not one JSON
/// value, else its top value with the nested values written out as JSON text.
pub uninterp spec fn json_parse(text: Seq<char>) -> Option<JsonView>;

/// Reads `text` with `serde_json::from_str` into a `serde_json::Value` and
/// keeps its top level; nested values are written back with `to_string`.
/// Which texts are accepted, and what they hold, is named, not stated.
#[verifier::external_body]
pub(crate) fn parse_json(text: &str) -> (r: Option<Json>)
    ensures
        match r {
            Some(v) => json_parse(text@) == Some(v@),
            None => json_parse(text@) is None,
        },
{
    match serde_json::from_str::<Value>(text) {
        Ok(Value::Null) => Some(Json::Null),
        Ok(Value::Bool(b)) => Some(Json::Bool(b)),
        Ok(Value::Number(n)) => Some(Json::Number(n.to_string())),
        Ok(Value::String(s)) => Some(Json::Str(s)),
        Ok(Value::Array(a)) => Some(Json::Array(a.iter().map(|v| v.to_string()).collect())),
        Ok(Value::Object(m)) => Some(Json::Object(m.iter().map(|(k, v)| (k.clone(), v.to_string())).collect())),
        Err(_) => None,
    }
}

/// The text of the first member of `members` named `key`.
pub open spec fn member_text(members: Seq<(Seq<char>, Seq<char>)>, key: Seq<char>) -> Option<Seq<char>>
    decreases members.len(),
{
    if members.len() == 0 {
        None
    } else if members[0].0 == key {
        Some(members[0].1)
    } else {
        member_text(members.drop_first(), key)
    }
}

/// The text of member `key` of `v`, as `Value::get` finds it: `None` where `v`
/// is not an object or has no such member.
pub open spec fn get_text(v: JsonView, key: Seq<char>) -> Option<Seq<char>> {
    match v {
        JsonView::Object(m) => member_text(m, key),
        _ => None,
    }
}

/// The string held by member `key` of `v`, as `get(key).and_then(as_str)`.
pub open spec fn get_str(v: JsonView, key: Seq<char>) -> Option<Seq<char>> {
    match get_text(v, key) {
        Some(t) => match json_parse(t) {
            Some(JsonView::Str(s)) => Some(s),
            _ => None,
        },
        None => None,
    }
}

/// The element texts of the array held by member `key` of `v`, as
/// `get(key).and_then(as_array)`.
pub open spec fn get_array(v: JsonView, key: Seq<char>) -> Option<Seq<Seq<char>>> {
    match get_text(v, key) {
        Some(t) => match json_parse(t) {
            Some(JsonView::Array(a)) => Some(a),
            _ => None,
        },
        None => None,
    }
}

/// The text of member `key` of `v`.
pub fn get_member_text(v: &Json, key: &str) -> (r: Option<String>)
    ensures
        match r {
            Some(t) => get_text(v@, key@) == Some(t@),
            None => get_text(v@, key@) is None,
        },
{
    match v {
        Json::Object(members) => {
            let ghost m = members@.map_values(|kv: (String, String)| (kv.0@, kv.1@));
            let mut i: usize = 0;
            assert(m.skip(0) =~= m);
            while i < members.len()
                invariant
                    v@ == JsonView::Object(m),
                    m == members@.map_values(|kv: (String, String)| (kv.0@, kv.1@)),
                    i <= members.len(),
                    member_text(m.skip(i as int), key@) == member_text(m, key@),
                decreases members.len() - i,
            {
                assert(m.skip(i as int).drop_first() =~= m.skip(i + 1));
                assert(m.skip(i as int)[0] == m[i as int]);
                if str_eq(members[i].0.as_str(), key) {
                    assert(m[i as int] == (members@[i as int].0@, members@[i as int].1@));
                    assert(member_text(m.skip(i as int), key@) == Some(m[i as int].1));
                    return Some(members[i].1.as_str().to_owned());
                }
                i = i + 1;
            }
            None
        },
        _ => None,
    }
}

/// The string held by member `key` of `v`.
pub fn get_member_str(v: &Json, key: &str) -> (r: Option<String>)
    ensures
        match r {
            Some(s) => get_str(v@, key@) == Some(s@),
            None => get_str(v@, key@) is None,
        },
{
    match get_member_text(v, key) {
        Some(t) => match parse_json(t.as_str()) {
            Some(Json::Str(s)) => Some(s),
            _ => None,
        },
        None => None,
    }
}

/// The element texts of the array held by member `key` of `v`.
pub fn get_member_array(v: &Json, key: &str) -> (r: Option<Vec<String>>)
    ensures
        match r {
            Some(a) => get_array(v@, key@) == Some(a@.map_values(|t: String| t@)),
            None => get_array(v@, key@) is None,
        },
{
    match get_member_text(v, key) {
        Some(t) => match parse_json(t.as_str()) {
            Some(Json::Array(a)) => Some(a),
            _ => None,
        },
        None => None,
    }
}

} // verus!
