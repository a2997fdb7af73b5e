//! Opaque JSON payloads (model output, tool arguments and results) that the
//! renderer and the session format carry without interpreting.

use vstd::prelude::*;

verus! {

/// A JSON value, carried opaque.
#[verifier::external_type_specification]
#[verifier::external_body]
pub struct ExJsonValue(serde_json::Value);

/// `serde_json::Value::clone` (derived): a deep copy, equal to the value
/// it copies.
pub assume_specification[ <serde_json::Value as Clone>::clone ](v: &serde_json::Value) -> (r:
    serde_json::Value)
    ensures
        r == *v,
;

/// The string-valued fields of a JSON object, by key; empty for a value
/// that is not an object.
pub uninterp spec fn json_string_fields(v: serde_json::Value) -> Map<Seq<char>, Seq<char>>;

/// The string in the field `key` of a JSON object (`Value::get`, then the
/// `String` variant): `None` when the value is not an object, has no such
/// field, or the field does not hold a string.
#[verifier::external_body]
pub(crate) fn json_str_field(v: &serde_json::Value, key: &str) -> (r: Option<String>)
    ensures
        match r {
            Some(s) => json_string_fields(*v).dom().contains(key@) && json_string_fields(*v)[key@]
                == s@,
            None => !json_string_fields(*v).dom().contains(key@),
        },
{
    match v.get(key) {
        Some(serde_json::Value::String(s)) => Some(s.clone()),
        _ => None,
    }
}

/// What setting the field `key` of `v` to the string `val` leaves
/// (`Value::as_object_mut`, then `Map::insert`): for an object, the same
/// object with `key` holding `val` (replaced if present, added if not) and
/// every other field as it was; any other value unchanged.
pub uninterp spec fn json_with_str_field(v: serde_json::Value, key: Seq<char>, val: Seq<char>) -> serde_json::Value;

/// Sets the field `key` of a JSON object to the string `val`
/// (`Value::as_object_mut`, then `Map::insert`, which replaces a present
/// field); a value that is not an object is left as it is. The result is
/// named over the whole value; of a value that already holds `key` as a
/// string field (so an object), the string fields afterwards are the old
/// ones with `key` set to `val`.
#[verifier::external_body]
pub(crate) fn json_set_str_field(v: &mut serde_json::Value, key: &str, val: &str)
    ensures
        *final(v) == json_with_str_field(*old(v), key@, val@),
        json_string_fields(*old(v)).dom().contains(key@) ==> json_string_fields(*final(v))
            == json_string_fields(*old(v)).insert(key@, val@),
{
    if let Some(obj) = v.as_object_mut() {
        obj.insert(key.to_string(), serde_json::Value::String(val.to_string()));
    }
}

} // verus!
