//! The settings document is a `serde_json::Value`. Verus sees it as an opaque
//! value; what the library reads of it (whether it is an object, and the
//! entries of an object) is modelled by the names below.

use vstd::prelude::*;

verus! {

#[verifier::external_type_specification]
#[verifier::external_body]
pub struct ExValue(serde_json::Value);

#[verifier::external_type_specification]
#[verifier::external_body]
#[verifier::reject_recursive_types(K)]
#[verifier::reject_recursive_types(V)]
pub struct ExJsonMap<K, V>(serde_json::Map<K, V>);

/// The type of a JSON object's entries.
pub type JsonObject = serde_json::Map<String, serde_json::Value>;

/// The entries of a JSON object, by key.
pub uninterp spec fn object_entries(m: JsonObject) -> Map<Seq<char>, serde_json::Value>;

/// The object that a value holds, if it is an object.
pub uninterp spec fn value_as_object(v: serde_json::Value) -> Option<JsonObject>;

/// Relies on `serde_json::Value`'s derived `Clone`: the copy equals the value copied.
pub assume_specification[ <serde_json::Value as Clone>::clone ](
    v: &serde_json::Value,
) -> (r: serde_json::Value)
    ensures
        r == *v,
;

/// Relies on `serde_json::Map::new`: a new map has no entries.
#[verifier::external_body]
pub(crate) fn object_new() -> (r: JsonObject)
    ensures
        object_entries(r) == empty_entries(),
{
    serde_json::Map::new()
}

/// Relies on `serde_json::Map::get`: the value stored under `key`, if any.
#[verifier::external_body]
pub(crate) fn object_get<'a>(m: &'a JsonObject, key: &str) -> (r: Option<&'a serde_json::Value>)
    ensures
        match r {
            Some(v) => object_entries(*m).contains_key(key@) && object_entries(*m)[key@] == *v,
            None => !object_entries(*m).contains_key(key@),
        },
{
    m.get(key)
}

/// Relies on `serde_json::Map::insert`: the entry for `key` is set to `value`,
/// replacing any earlier one; the other entries stay.
#[verifier::external_body]
pub(crate) fn object_insert(m: &mut JsonObject, key: String, value: serde_json::Value)
    ensures
        object_entries(*final(m)) == object_entries(*old(m)).insert(key@, value),
{
    m.insert(key, value);
}

/// Relies on `serde_json::Value::as_object`: the map of an object value, and
/// `None` for any other value.
#[verifier::external_body]
pub(crate) fn as_object(v: &serde_json::Value) -> (r: Option<&JsonObject>)
    ensures
        match r {
            Some(m) => value_as_object(*v) == Some(*m),
            None => value_as_object(*v) is None,
        },
{
    v.as_object()
}

/// Relies on `serde_json::Value::Object`: the object value holding `m`.
#[verifier::external_body]
pub(crate) fn object_value(m: JsonObject) -> (r: serde_json::Value)
    ensures
        value_as_object(r) == Some(m),
{
    serde_json::Value::Object(m)
}

/// No entries at all.
pub open spec fn empty_entries() -> Map<Seq<char>, serde_json::Value> {
    Map::empty()
}

/// The entries of `v`, if it is an object.
pub open spec fn entries_of(v: serde_json::Value) -> Option<Map<Seq<char>, serde_json::Value>> {
    match value_as_object(v) {
        Some(m) => Some(object_entries(m)),
        None => None,
    }
}

} // verus!
