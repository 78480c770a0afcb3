//! What is taken for granted of `serde_json`: its values, a model of what
//! they hold, and one wrapper for each way in which the library makes one.
//! Nothing here is proved.

use vstd::prelude::*;

verus! {

/// A JSON value, as `serde_json` holds it.
#[verifier::external_type_specification]
#[verifier::external_body]
pub struct ExValue(serde_json::Value);

/// The fields of a JSON object, as `serde_json` holds them.
#[verifier::external_type_specification]
#[verifier::external_body]
#[verifier::reject_recursive_types(K)]
#[verifier::reject_recursive_types(V)]
pub struct ExMap<K, V>(serde_json::Map<K, V>);

/// The fields of a JSON object.
pub type Fields = serde_json::Map<String, serde_json::Value>;

/// The JSON values that a query can give.
pub enum Json {
    Null,
    String(Seq<char>),
    Array(Seq<Json>),
    Object(FieldsModel),
}

/// What the fields of a JSON object hold, by their keys.
pub type FieldsModel = Map<Seq<char>, Json>;

/// What `value` holds.
pub uninterp spec fn json_model(value: serde_json::Value) -> Json;

/// What `fields` holds.
pub uninterp spec fn fields_model(fields: Fields) -> FieldsModel;

/// `Value::Null`.
#[verifier::external_body]
pub(crate) fn null() -> (value: serde_json::Value)
    ensures
        json_model(value) == Json::Null,
{
    serde_json::Value::Null
}

/// `Value::String`, holding `text`.
#[verifier::external_body]
pub(crate) fn string(text: String) -> (value: serde_json::Value)
    ensures
        json_model(value) == Json::String(text@),
{
    serde_json::Value::String(text)
}

/// `Value::Array`, holding `items` in their order.
#[verifier::external_body]
pub(crate) fn array(items: Vec<serde_json::Value>) -> (value: serde_json::Value)
    ensures
        json_model(value) == Json::Array(items@.map_values(|item| json_model(item))),
{
    serde_json::Value::Array(items)
}

/// `Value::Object`, holding `fields`.
#[verifier::external_body]
pub(crate) fn object(fields: Fields) -> (value: serde_json::Value)
    ensures
        json_model(value) == Json::Object(fields_model(fields)),
{
    serde_json::Value::Object(fields)
}

/// `Map::new`: no fields.
#[verifier::external_body]
pub(crate) fn no_fields() -> (fields: Fields)
    ensures
        fields_model(fields) == FieldsModel::empty(),
{
    serde_json::Map::new()
}

/// `Map::insert`: sets the field `key` to `value`, whether or not there was
/// such a field.
#[verifier::external_body]
pub(crate) fn set_field(fields: &mut Fields, key: String, value: serde_json::Value)
    ensures
        fields_model(*final(fields)) == fields_model(*old(fields)).insert(key@, json_model(value)),
{
    fields.insert(key, value);
}

} // verus!
