//! JSON values.

use crate::table::{distinct, key_at, lemma_at, map_of};
use serde_json::Value;
use vstd::prelude::*;

verus! {

/// A JSON value.
#[verifier::external_type_specification]
#[verifier::external_body]
pub struct ExJsonValue(serde_json::Value);

/// The JSON value that `text` writes, if it writes one.
pub uninterp spec fn json_value(text: Seq<char>) -> Option<Value>;

/// The elements of an array; `None` of any other value.
pub uninterp spec fn json_elements(v: Value) -> Option<Seq<Value>>;

/// The member of an object under `key`; `None` where there is none, and of any other value.
pub uninterp spec fn json_member(v: Value, key: Seq<char>) -> Option<Value>;

/// What a string holds; `None` of any other value.
pub uninterp spec fn json_text(v: Value) -> Option<Seq<char>>;

/// `serde_json::from_str` into a `Value`: what comes back depends on the text alone.
#[verifier::external_body]
pub(crate) fn parse(text: &str) -> (r: Option<Value>)
    ensures
        r == json_value(text@),
{
    serde_json::from_str(text).ok()
}

/// `Value::as_array`: the elements of an array, in order.
#[verifier::external_body]
pub(crate) fn elements(v: &Value) -> (r: Option<&Vec<Value>>)
    ensures
        match r {
            Some(es) => json_elements(*v) == Some(es@),
            None => json_elements(*v) is None,
        },
{
    v.as_array()
}

/// `Value::get` with a string: the member of an object.
#[verifier::external_body]
pub(crate) fn member<'a>(v: &'a Value, key: &str) -> (r: Option<&'a Value>)
    ensures
        match r {
            Some(m) => json_member(*v, key@) == Some(*m),
            None => json_member(*v, key@) is None,
        },
{
    v.get(key)
}

/// `Value::as_str`: what a string holds.
#[verifier::external_body]
pub(crate) fn text(v: &Value) -> (r: Option<&str>)
    ensures
        match r {
            Some(s) => json_text(*v) == Some(s@),
            None => json_text(*v) is None,
        },
{
    v.as_str()
}

/// Whether a boolean is true; `None` of any other value.
pub uninterp spec fn json_bool(v: Value) -> Option<bool>;

/// The number that a value is, where it is one that fits 64 bits without a sign.
pub uninterp spec fn json_number(v: Value) -> Option<u64>;

/// Whether a value is `null`.
pub uninterp spec fn json_null(v: Value) -> bool;

/// `Value::from` of a string: `Value::as_str` gives the string back.
#[verifier::external_body]
pub(crate) fn from_text(s: &str) -> (r: Value)
    ensures
        json_text(r) == Some(s@),
{
    Value::from(s)
}

/// `Value::from` of a boolean: `Value::as_bool` gives it back.
#[verifier::external_body]
pub(crate) fn from_bool(b: bool) -> (r: Value)
    ensures
        json_bool(r) == Some(b),
{
    Value::from(b)
}

/// `Value::from` of a number: `Value::as_u64` gives it back.
#[verifier::external_body]
pub(crate) fn from_number(n: u64) -> (r: Value)
    ensures
        json_number(r) == Some(n),
{
    Value::from(n)
}

/// `Value::Null`, of which `Value::is_null` holds.
#[verifier::external_body]
pub(crate) fn null() -> (r: Value)
    ensures
        json_null(r),
{
    Value::Null
}

/// `Value::Array`: `Value::as_array` gives the elements back.
#[verifier::external_body]
pub(crate) fn from_elements(items: Vec<Value>) -> (r: Value)
    ensures
        json_elements(r) == Some(items@),
{
    Value::Array(items)
}

/// `Value::Object` of a `serde_json::Map` that is collected from the members: `Value::get` gives
/// each member back, and nothing under any other key.
#[verifier::external_body]
pub(crate) fn from_members(members: Vec<(String, Value)>) -> (r: Value)
    requires
        distinct(members@),
    ensures
        forall|key: Seq<char>| #[trigger]
            json_member(r, key) == (if map_of(members@).contains_key(key) {
                Some(map_of(members@)[key])
            } else {
                None
            }),
{
    Value::Object(members.into_iter().collect())
}

/// What a JSON value says.
pub enum Json {
    Text(Seq<char>),
    Number(u64),
    Bool(bool),
    Null,
    List(Seq<Json>),
    /// The members, by key.
    Object(Seq<(Seq<char>, Json)>),
    /// A value that is passed on as it is.
    Given(Value),
}

/// Whether `v` says `j`.
pub open spec fn shows(v: Value, j: Json) -> bool
    decreases j,
{
    match j {
        Json::Text(s) => json_text(v) == Some(s),
        Json::Number(n) => json_number(v) == Some(n),
        Json::Bool(b) => json_bool(v) == Some(b),
        Json::Null => json_null(v),
        Json::List(items) => match json_elements(v) {
            Some(es) => es.len() == items.len() && forall|i: int|
                0 <= i < items.len() ==> shows(es[i], #[trigger] items[i]),
            None => false,
        },
        Json::Object(members) => {
            &&& forall|i: int|
                0 <= i < members.len() ==> (match json_member(v, (#[trigger] members[i]).0) {
                    Some(m) => shows(m, members[i].1),
                    None => false,
                })
            &&& forall|key: Seq<char>| #[trigger]
                json_member(v, key) is Some ==> exists|i: int|
                    0 <= i < members.len() && (#[trigger] members[i]).0 == key
        },
        Json::Given(w) => v == w,
    }
}

/// What a string that may be missing says.
pub open spec fn optional(s: Option<String>) -> Json {
    match s {
        Some(s) => Json::Text(s@),
        None => Json::Null,
    }
}

/// What a list of strings says.
pub open spec fn texts(list: Seq<String>) -> Json {
    Json::List(list.map_values(|s: String| Json::Text(s@)))
}

/// The JSON of a string that may be missing.
pub(crate) fn optional_value(s: &Option<String>) -> (r: Value)
    ensures
        shows(r, optional(*s)),
{
    match s {
        Some(s) => from_text(s.as_str()),
        None => null(),
    }
}

/// The JSON of a list of strings.
pub(crate) fn list_value(list: &Vec<String>) -> (r: Value)
    ensures
        shows(r, texts(list@)),
{
    let mut items: Vec<Value> = Vec::new();
    for i in 0..list.len()
        invariant
            items@.len() == i,
            forall|j: int| 0 <= j < i ==> json_text(#[trigger] items@[j]) == Some(list@[j]@),
    {
        items.push(from_text(list[i].as_str()));
    }
    let r = from_elements(items);
    proof {
        let js = list@.map_values(|s: String| Json::Text(s@));
        assert forall|i: int| 0 <= i < js.len() implies shows(items@[i], #[trigger] js[i]) by {
            assert(js[i] == Json::Text(list@[i]@));
        }
    }
    r
}

/// The JSON object with these members, which say what `says` lists.
pub(crate) fn object_value(
    members: Vec<(String, Value)>,
    Ghost(says): Ghost<Seq<(Seq<char>, Json)>>,
) -> (r: Value)
    requires
        distinct(members@),
        members@.len() == says.len(),
        forall|i: int|
            0 <= i < says.len() ==> members@[i].0@ == (#[trigger] says[i]).0 && shows(
                members@[i].1,
                says[i].1,
            ),
    ensures
        shows(r, Json::Object(says)),
{
    let ghost given = members@;
    let r = from_members(members);
    proof {
        assert forall|i: int| 0 <= i < says.len() implies (match json_member(
            r,
            (#[trigger] says[i]).0,
        ) {
            Some(m) => shows(m, says[i].1),
            None => false,
        }) by {
            lemma_at(given, i);
        }
        assert forall|key: Seq<char>| #[trigger] json_member(r, key) is Some implies exists|i: int|
            0 <= i < says.len() && (#[trigger] says[i]).0 == key by {
            let i = choose|i: int| key_at(given, key, i);
            assert(key_at(given, key, i));
            assert(says[i].0 == key);
        }
    }
    r
}

}
