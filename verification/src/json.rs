//! JSON documents, as `serde_json` parses, edits and prints them.
//!
//! `JsonModel` is what the library knows of a `serde_json::Value`; the calls
//! into `serde_json` are trusted wrappers stated over it.
use vstd::prelude::*;

verus! {

/// A JSON value. Objects map keys to values (`serde_json` keeps its keys
/// sorted, so an object is determined by this map). Numbers are never read or
/// written by this library; the index only tells them apart.
pub enum JsonModel {
    Null,
    Bool(bool),
    Number(nat),
    Str(Seq<char>),
    Array(Seq<JsonModel>),
    Object(Map<Seq<char>, JsonModel>),
}

/// `serde_json::Value`, a parsed JSON document.
#[verifier::external_type_specification]
#[verifier::external_body]
pub struct ExJsonValue(serde_json::Value);

/// `serde_json::Error`, why parsing or printing failed.
#[verifier::external_type_specification]
#[verifier::external_body]
pub struct ExJsonError(serde_json::Error);

/// What a `serde_json::Value` holds.
pub uninterp spec fn json_model(v: serde_json::Value) -> JsonModel;

/// What `serde_json::from_str::<Value>` returns for a text: `None` when the
/// text is not JSON.
pub uninterp spec fn json_parse(text: Seq<char>) -> Option<JsonModel>;

/// What `serde_json::to_string` prints for a value.
pub uninterp spec fn json_text(v: JsonModel) -> Seq<char>;

/// A value whose fields can be set: an object, or null, which setting a field
/// turns into an empty object first.
pub open spec fn json_indexable(v: JsonModel) -> bool {
    v is Null || v is Object
}

/// `v` with field `key` set to `new`; null becomes an object holding only it.
pub open spec fn json_with_field(v: JsonModel, key: Seq<char>, new: JsonModel) -> JsonModel {
    match v {
        JsonModel::Object(m) => JsonModel::Object(m.insert(key, new)),
        _ => JsonModel::Object(Map::<Seq<char>, JsonModel>::empty().insert(key, new)),
    }
}

/// `v` holds a field `key`.
pub open spec fn json_has_field(v: JsonModel, key: Seq<char>) -> bool {
    v matches JsonModel::Object(m) && m.contains_key(key)
}

/// Field `key` of `v`, where `v` holds it.
pub open spec fn json_field(v: JsonModel, key: Seq<char>) -> JsonModel {
    match v {
        JsonModel::Object(m) => m[key],
        _ => JsonModel::Null,
    }
}

/// Parses `text` with `serde_json::from_str` into a `Value`. It fails exactly
/// when the text is not JSON; the value it returns is the one `json_parse`
/// names for the text.
#[verifier::external_body]
pub(crate) fn json_from_str(text: &str) -> (res: Result<serde_json::Value, serde_json::Error>)
    ensures
        res is Ok <==> json_parse(text@) is Some,
        res matches Ok(v) ==> json_parse(text@) == Some(json_model(v)),
{
    serde_json::from_str::<serde_json::Value>(text)
}

/// Prints `v` with `serde_json::to_string`. Nothing is claimed of when it
/// fails; what it prints is the text `json_text` names for the value.
#[verifier::external_body]
pub(crate) fn json_to_string(v: &serde_json::Value) -> (res: Result<String, serde_json::Error>)
    ensures
        res matches Ok(s) ==> s@ == json_text(json_model(*v)),
{
    serde_json::to_string(v)
}

/// `Value::from(String)`: a JSON string.
#[verifier::external_body]
pub(crate) fn json_string(s: String) -> (v: serde_json::Value)
    ensures
        json_model(v) == JsonModel::Str(s@),
{
    serde_json::Value::from(s)
}

/// `Value::from(bool)`: a JSON boolean.
#[verifier::external_body]
pub(crate) fn json_bool(b: bool) -> (v: serde_json::Value)
    ensures
        json_model(v) == JsonModel::Bool(b),
{
    serde_json::Value::from(b)
}

/// `Value::is_null`.
#[verifier::external_body]
pub(crate) fn json_is_null(v: &serde_json::Value) -> (res: bool)
    ensures
        res == (json_model(*v) is Null),
{
    v.is_null()
}

/// `Value::is_object`.
#[verifier::external_body]
pub(crate) fn json_is_object(v: &serde_json::Value) -> (res: bool)
    ensures
        res == (json_model(*v) is Object),
{
    v.is_object()
}

/// `Value::get` with a key, cloned: the field `key` of an object that holds
/// it, else `None`.
#[verifier::external_body]
pub(crate) fn json_get(v: &serde_json::Value, key: &str) -> (res: Option<serde_json::Value>)
    ensures
        res is Some <==> json_has_field(json_model(*v), key@),
        res matches Some(f) ==> json_model(f) == json_field(json_model(*v), key@),
{
    v.get(key).cloned()
}

/// `v[key] = new` through `IndexMut<&str>`: turns null into an empty object,
/// then inserts or replaces the field. The source panics on any other value,
/// which is left out.
#[verifier::external_body]
pub(crate) fn json_set_field(v: &mut serde_json::Value, key: &str, new: serde_json::Value)
    requires
        json_indexable(json_model(*old(v))),
    ensures
        json_model(*final(v)) == json_with_field(json_model(*old(v)), key@, json_model(new)),
{
    v[key] = new;
}

} // verus!
