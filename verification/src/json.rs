//! JSON values as the light bridge reads and writes them.
//!
//! The values themselves belong to `serde_json`. This module gives them a
//! mathematical model, [`Json`], and states over it what the few `serde_json`
//! operations in use do. Everything marked `external_body` here is trusted.

use vstd::prelude::*;

verus! {

/// What a JSON value is, as mathematics.
pub enum Json {
    Null,
    Bool(bool),
    /// A number that is held as an integer.
    Integer(int),
    /// A number that is held in binary floating point, by its bits.
    Float(u64),
    Text(Seq<char>),
    Items(Seq<Json>),
    Object(Map<Seq<char>, Json>),
}

/// `serde_json::Value`, of which only [`json`] is known.
#[verifier::external_type_specification]
#[verifier::external_body]
pub struct ExValue(serde_json::Value);

/// `serde_json::Map`, of which only [`entries`] is known.
#[verifier::external_type_specification]
#[verifier::external_body]
#[verifier::reject_recursive_types(K)]
#[verifier::reject_recursive_types(V)]
pub struct ExJsonMap<K, V>(serde_json::Map<K, V>);

/// What a `serde_json::Value` holds.
pub uninterp spec fn json(value: serde_json::Value) -> Json;

/// What a `serde_json::Map` holds, by key.
pub uninterp spec fn entries(object: serde_json::Map<String, serde_json::Value>) -> Map<Seq<char>, Json>;

/// The models of a sequence of values, in order.
pub open spec fn json_items(values: Seq<serde_json::Value>) -> Seq<Json> {
    values.map_values(|value: serde_json::Value| json(value))
}

/// The entry of an object under a key.
pub open spec fn json_field(value: Json, key: Seq<char>) -> Option<Json> {
    match value {
        Json::Object(fields) => if fields.contains_key(key) {
            Some(fields[key])
        } else {
            None
        },
        _ => None,
    }
}

/// `serde_json::Map::new` makes a map without entries.
#[verifier::external_body]
pub(crate) fn new_object() -> (object: serde_json::Map<String, serde_json::Value>)
    ensures
        entries(object) == (Map::<Seq<char>, Json>::empty()),
{
    serde_json::Map::new()
}

/// `serde_json::Map::insert` sets the entry of one key and leaves the others.
#[verifier::external_body]
pub(crate) fn insert(object: &mut serde_json::Map<String, serde_json::Value>, key: &str, value: serde_json::Value)
    ensures
        entries(*final(object)) == entries(*old(object)).insert(key@, json(value)),
{
    object.insert(key.to_owned(), value);
}

/// `serde_json::Value::Object` is the object with the entries of the map.
#[verifier::external_body]
pub(crate) fn object_value(object: serde_json::Map<String, serde_json::Value>) -> (value: serde_json::Value)
    ensures
        json(value) == Json::Object(entries(object)),
{
    serde_json::Value::Object(object)
}

/// `serde_json::Value::Bool` is that boolean.
#[verifier::external_body]
pub(crate) fn bool_value(flag: bool) -> (value: serde_json::Value)
    ensures
        json(value) == Json::Bool(flag),
{
    serde_json::Value::Bool(flag)
}

/// `serde_json::Value::from` makes of a `u16` the number with that value, held
/// as an integer.
#[verifier::external_body]
pub(crate) fn integer_value(number: u16) -> (value: serde_json::Value)
    ensures
        json(value) == Json::Integer(number as int),
{
    serde_json::Value::from(number)
}

/// `serde_json::Value::String` is the string with those characters.
#[verifier::external_body]
pub(crate) fn text_value(text: String) -> (value: serde_json::Value)
    ensures
        json(value) == Json::Text(text@),
{
    serde_json::Value::String(text)
}

/// `serde_json::Value::Array` is the array of those values, in order.
#[verifier::external_body]
pub(crate) fn array_value(items: Vec<serde_json::Value>) -> (value: serde_json::Value)
    ensures
        json(value) == Json::Items(json_items(items@)),
{
    serde_json::Value::Array(items)
}

/// `serde_json::Value::clone` makes a value that holds the same.
#[verifier::external_body]
pub(crate) fn clone_value(value: &serde_json::Value) -> (copy: serde_json::Value)
    ensures
        json(copy) == json(*value),
{
    value.clone()
}

/// `serde_json::Value::as_array` gives the items of an array, and nothing for
/// any other value.
#[verifier::external_body]
pub(crate) fn as_array(value: &serde_json::Value) -> (items: Option<&Vec<serde_json::Value>>)
    ensures
        match items {
            Some(items) => json(*value) == Json::Items(json_items(items@)),
            None => !(json(*value) is Items),
        },
{
    value.as_array()
}

/// `serde_json::Value::get` with a string gives the entry of an object under
/// that key, and nothing where there is none or the value is no object.
#[verifier::external_body]
pub(crate) fn get<'a>(value: &'a serde_json::Value, key: &str) -> (entry: Option<&'a serde_json::Value>)
    ensures
        match entry {
            Some(entry) => json_field(json(*value), key@) == Some(json(*entry)),
            None => json_field(json(*value), key@) is None,
        },
{
    value.get(key)
}

/// `serde_json::Value::as_str` gives the characters of a string, and nothing
/// for any other value.
#[verifier::external_body]
pub(crate) fn as_str(value: &serde_json::Value) -> (text: Option<&str>)
    ensures
        match text {
            Some(text) => json(*value) == Json::Text(text@),
            None => !(json(*value) is Text),
        },
{
    value.as_str()
}

/// A field is what was set last under its key, whatever is set under others; an
/// object has no fields but those that were set.
pub proof fn a_field_is_what_was_set_last(fields: Map<Seq<char>, Json>, key: Seq<char>, value: Json, other: Seq<char>)
    ensures
        json_field(Json::Object(fields.insert(key, value)), key) == Some(value),
        other != key ==> json_field(Json::Object(fields.insert(key, value)), other) == json_field(
            Json::Object(fields),
            other,
        ),
        json_field(Json::Object(Map::empty()), key) is None,
        fields.contains_key(key) ==> json_field(Json::Object(fields), key) == Some(fields[key]),
        !fields.contains_key(key) ==> json_field(Json::Object(fields), key) is None,
{
}

/// Nothing but an object has fields.
pub proof fn only_objects_have_fields(value: Json, key: Seq<char>)
    requires
        !(value is Object),
    ensures
        json_field(value, key) is None,
{
}

/// The items of an array are those values, each in its place.
pub proof fn items_keep_their_places(values: Seq<serde_json::Value>, i: int)
    requires
        0 <= i < values.len(),
    ensures
        json_items(values).len() == values.len(),
        json_items(values)[i] == json(values[i]),
{
}

} // verus!
