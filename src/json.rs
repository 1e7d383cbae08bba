//! Access to JSON documents through serde_json, with a mathematical model of
//! the parsed values.
use vstd::prelude::*;

verus! {

#[verifier::external_type_specification]
#[verifier::external_body]
pub struct ExJsonValue(serde_json::Value);

#[verifier::external_type_specification]
#[verifier::external_body]
pub struct ExJsonError(serde_json::Error);

/// A JSON value as mathematics.
pub enum JsonView {
    Null,
    Bool(bool),
    /// A number, with its value when serde_json holds it as an integer that
    /// fits in `i64`.
    Number(Option<i64>),
    Str(Seq<char>),
    Array(Seq<JsonView>),
    Object(Map<Seq<char>, JsonView>),
}

/// What a parsed serde_json value holds.
pub uninterp spec fn json_view(v: serde_json::Value) -> JsonView;

/// Whether a text is one complete JSON document, as serde_json reads it.
pub uninterp spec fn is_json(s: Seq<char>) -> bool;

/// The value that serde_json reads from a JSON text.
pub uninterp spec fn json_text(s: Seq<char>) -> JsonView;

/// Relies on `serde_json::from_str` into a `Value`: it succeeds exactly on
/// texts that hold one JSON document, and the value depends on the text alone.
#[verifier::external_body]
pub(crate) fn parse_json(s: &str) -> (r: Result<serde_json::Value, serde_json::Error>)
    ensures
        r is Ok <==> is_json(s@),
        r is Ok ==> json_view(r->Ok_0) == json_text(s@),
{
    serde_json::from_str(s)
}

/// Relies on `serde_json::Value::get` with a string key: the member of an
/// object under that key, `None` for a missing key or a value that is no object.
#[verifier::external_body]
pub(crate) fn member<'a>(v: &'a serde_json::Value, key: &str) -> (r: Option<&'a serde_json::Value>)
    ensures
        r is Some <==> (json_view(*v) is Object && json_view(*v)->Object_0.contains_key(key@)),
        r is Some ==> json_view(*r->0) == json_view(*v)->Object_0[key@],
{
    v.get(key)
}

/// Relies on `serde_json::Value::as_str`: the text of a string value.
pub assume_specification<'a>[ serde_json::Value::as_str ](v: &'a serde_json::Value) -> (r: Option<&'a str>)
    ensures
        r is Some <==> json_view(*v) is Str,
        r is Some ==> r->0@ == json_view(*v)->Str_0,
;

/// Relies on `serde_json::Value::as_array`: the elements of an array value.
pub assume_specification<'a>[ serde_json::Value::as_array ](v: &'a serde_json::Value) -> (r: Option<&'a Vec<serde_json::Value>>)
    ensures
        r is Some <==> json_view(*v) is Array,
        r is Some ==> r->0@.len() == json_view(*v)->Array_0.len(),
        r is Some ==> forall|i: int| 0 <= i < r->0@.len() ==> json_view(#[trigger] r->0@[i]) == json_view(*v)->Array_0[i],
;

/// Relies on `serde_json::Value::as_i64`: a number that is an integer within `i64`.
pub assume_specification[ serde_json::Value::as_i64 ](v: &serde_json::Value) -> (r: Option<i64>)
    ensures
        r == (match json_view(*v) {
            JsonView::Number(n) => n,
            _ => None,
        }),
;

/// Relies on `serde_json::Value::is_null`.
pub assume_specification[ serde_json::Value::is_null ](v: &serde_json::Value) -> (r: bool)
    ensures
        r == json_view(*v) is Null,
;

/// Relies on `serde_json::Value::is_object`.
pub assume_specification[ serde_json::Value::is_object ](v: &serde_json::Value) -> (r: bool)
    ensures
        r == json_view(*v) is Object,
;

/// The text of member `key` of `j`, when `j` is an object and that member is a string.
pub open spec fn text_at(j: JsonView, key: Seq<char>) -> Option<Seq<char>> {
    match j {
        JsonView::Object(m) => if m.contains_key(key) {
            match m[key] {
                JsonView::Str(s) => Some(s),
                _ => None,
            }
        } else {
            None
        },
        _ => None,
    }
}

/// Member `key` of `j`, when `j` is an object that has it.
pub open spec fn member_at(j: JsonView, key: Seq<char>) -> Option<JsonView> {
    match j {
        JsonView::Object(m) => if m.contains_key(key) {
            Some(m[key])
        } else {
            None
        },
        _ => None,
    }
}

/// The view of an optional text.
pub open spec fn opt_view(s: Option<String>) -> Option<Seq<char>> {
    match s {
        Some(t) => Some(t@),
        None => None,
    }
}

/// The text of the member `key` of `v`, if it is a string.
pub(crate) fn text_member(v: &serde_json::Value, key: &str) -> (r: Option<String>)
    ensures
        opt_view(r) == text_at(json_view(*v), key@),
{
    match member(v, key) {
        Some(m) => match m.as_str() {
            Some(s) => Some(String::from_str(s)),
            None => None,
        },
        None => None,
    }
}

} // verus!
