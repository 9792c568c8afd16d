//! JSON values, carried as `serde_json` holds them.

use vstd::prelude::*;

verus! {

/// `serde_json::Value`, opaque to proofs.
#[verifier::external_type_specification]
#[verifier::external_body]
pub struct ExJsonValue(serde_json::Value);

/// The compact JSON text of a value, when it has one.
pub uninterp spec fn json_text(value: serde_json::Value) -> Option<Seq<char>>;

/// The value that is a string.
pub uninterp spec fn json_string(text: Seq<char>) -> serde_json::Value;

/// The value that is a number.
pub uninterp spec fn json_number(number: u64) -> serde_json::Value;

/// The value itself where there is one, and null where there is none.
pub uninterp spec fn json_optional(value: Option<serde_json::Value>) -> serde_json::Value;

/// The object of named fields, a later field taking the place of an earlier one
/// of its name.
pub uninterp spec fn json_object(fields: Seq<(Seq<char>, serde_json::Value)>) -> serde_json::Value;

/// What named fields say.
pub open spec fn fields_model(fields: Seq<(String, serde_json::Value)>) -> Seq<
    (Seq<char>, serde_json::Value),
> {
    fields.map_values(|field: (String, serde_json::Value)| (field.0@, field.1))
}

/// Writes a value as compact JSON with `serde_json::to_string`.
///
/// The text is named [`json_text`]: it depends on the value alone, objects
/// being written in the order of their keys. `None` stands for the error
/// `to_string` reports; nothing more is claimed of either.
#[verifier::external_body]
pub(crate) fn write_json(value: &serde_json::Value) -> (text: Option<String>)
    ensures
        match text {
            Some(text) => json_text(*value) == Some(text@),
            None => json_text(*value) is None,
        },
{
    serde_json::to_string(value).ok()
}

/// Copies a value with the `clone` of `serde_json::Value`, a deep copy.
#[verifier::external_body]
pub(crate) fn copy_json(value: &serde_json::Value) -> (copy: serde_json::Value)
    ensures
        copy == *value,
{
    value.clone()
}

/// Makes a string value with the conversion of `serde_json::Value` from `&str`.
///
/// The value is named [`json_string`]: it depends on the text alone.
#[verifier::external_body]
pub(crate) fn string_value(text: &str) -> (value: serde_json::Value)
    ensures
        value == json_string(text@),
{
    serde_json::Value::from(text)
}

/// Makes a number value with the conversion of `serde_json::Value` from `u64`.
///
/// The value is named [`json_number`]: it depends on the number alone.
#[verifier::external_body]
pub(crate) fn number_value(number: u64) -> (value: serde_json::Value)
    ensures
        value == json_number(number),
{
    serde_json::Value::from(number)
}

/// Makes a value of an optional one with the conversion of `serde_json::Value`
/// from `Option`: the value where there is one, and null otherwise.
///
/// The value is named [`json_optional`]: it depends on the optional value alone.
#[verifier::external_body]
pub(crate) fn optional_value(value: Option<serde_json::Value>) -> (result: serde_json::Value)
    ensures
        result == json_optional(value),
        value is Some ==> result == value->Some_0,
{
    serde_json::Value::from(value)
}

/// Makes an object of named fields with the `from_iter` of `serde_json::Map`.
///
/// The object is named [`json_object`]: it depends on the fields alone.
#[verifier::external_body]
pub(crate) fn object_value(fields: Vec<(String, serde_json::Value)>) -> (value: serde_json::Value)
    ensures
        value == json_object(fields_model(fields@)),
{
    serde_json::Value::Object(serde_json::Map::from_iter(fields))
}

/// A named field.
pub(crate) fn field(name: &str, value: serde_json::Value) -> (field: (String, serde_json::Value))
    ensures
        field.0@ == name@,
        field.1 == value,
{
    (name.to_owned(), value)
}

} // verus!
