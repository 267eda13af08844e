//! JSON objects and their text, as `serde_json` keeps and writes them.
//!
//! Nothing in this module is proved. It declares the outside types, names
//! what an object holds and what is written for it, and states what each
//! call into `serde_json` does over those names. The crate is built with
//! `serde_json`'s `preserve_order`, so an object keeps its fields in the
//! order in which their names were first put in.

use crate::document::{has_key, index_of_key, put, FieldView, ValueView};
use vstd::prelude::*;

verus! {

/// `serde_json::Map`, the object that a document is kept in.
#[verifier::external_type_specification]
#[verifier::external_body]
#[verifier::reject_recursive_types(K)]
#[verifier::reject_recursive_types(V)]
pub struct ExJsonMap<K, V>(serde_json::Map<K, V>);

/// `serde_json::Value`, the value of one field of an object.
#[verifier::external_type_specification]
#[verifier::external_body]
pub struct ExJsonValue(serde_json::Value);

/// The error of `serde_json`, carried through without looking inside.
#[verifier::external_type_specification]
#[verifier::external_body]
pub struct ExJsonError(serde_json::Error);

/// The fields that an object holds, in the order in which it walks them.
pub uninterp spec fn object_fields(object: serde_json::Map<String, serde_json::Value>) -> Seq<
    FieldView,
>;

/// What a JSON value holds.
pub uninterp spec fn json_value(value: serde_json::Value) -> ValueView;

/// The text that `serde_json::to_string` writes for an object with these
/// fields.
pub uninterp spec fn json_object_text(fields: Seq<FieldView>) -> Seq<char>;

/// Calls `serde_json::Map::new`: an object without fields.
#[verifier::external_body]
pub(crate) fn object_new() -> (object: serde_json::Map<String, serde_json::Value>)
    ensures
        object_fields(object) == Seq::<FieldView>::empty(),
{
    serde_json::Map::new()
}

/// Calls `serde_json::Map::len`: the number of fields.
#[verifier::external_body]
pub(crate) fn object_len(object: &serde_json::Map<String, serde_json::Value>) -> (n: usize)
    ensures
        n == object_fields(*object).len(),
{
    object.len()
}

/// Calls `serde_json::Map::insert`.
///
/// Trusted: where the object has a field of that name, the field keeps its
/// place and takes the new value; where it has none, the field is added
/// last. This is what `indexmap` documents of the insert that stands behind
/// it.
#[verifier::external_body]
pub(crate) fn object_insert(
    object: &mut serde_json::Map<String, serde_json::Value>,
    key: String,
    value: serde_json::Value,
)
    ensures
        object_fields(*final(object)) == put(
            object_fields(*old(object)),
            FieldView { key: key@, value: json_value(value) },
        ),
{
    object.insert(key, value);
}

/// Calls `serde_json::Map::get`: the value of the field named `key`, if
/// the object has such a field.
#[verifier::external_body]
pub(crate) fn object_get<'a>(
    object: &'a serde_json::Map<String, serde_json::Value>,
    key: &str,
) -> (value: Option<&'a serde_json::Value>)
    ensures
        match value {
            Some(found) => has_key(object_fields(*object), key@) && json_value(*found)
                == object_fields(*object)[index_of_key(object_fields(*object), key@)].value,
            None => !has_key(object_fields(*object), key@),
        },
{
    object.get(key)
}

/// Calls `serde_json::Map::iter` and takes a copy of the entry at place
/// `i` of the walk.
#[verifier::external_body]
pub(crate) fn object_entry(object: &serde_json::Map<String, serde_json::Value>, i: usize) -> (entry:
    (String, serde_json::Value))
    requires
        i < object_fields(*object).len(),
    ensures
        entry.0@ == object_fields(*object)[i as int].key,
        json_value(entry.1) == object_fields(*object)[i as int].value,
{
    let (key, value) = object.iter().nth(i).unwrap();
    (key.clone(), value.clone())
}

/// Calls `serde_json::to_string` on an object.
///
/// Trusted: the text is a function of the fields alone, named
/// `json_object_text`, and the call succeeds. The serializer fails only
/// where a key is no string or the writer refuses a write; the keys are
/// strings and the writer is a vector in memory.
#[verifier::external_body]
pub(crate) fn object_text(object: &serde_json::Map<String, serde_json::Value>) -> (written: Result<
    String,
    serde_json::Error,
>)
    ensures
        match written {
            Ok(text) => text@ == json_object_text(object_fields(*object)),
            Err(_) => false,
        },
{
    serde_json::to_string(object)
}

/// Calls `serde_json::Value::from` on a `String`: a JSON string.
#[verifier::external_body]
pub(crate) fn value_of_text(text: String) -> (value: serde_json::Value)
    ensures
        json_value(value) == ValueView::Text(text@),
{
    serde_json::Value::from(text)
}

/// Calls `serde_json::Value::from` on a `u32`: a JSON number.
#[verifier::external_body]
pub(crate) fn value_of_number(number: u32) -> (value: serde_json::Value)
    ensures
        json_value(value) == ValueView::Number(number),
{
    serde_json::Value::from(number)
}

/// Calls `serde_json::Value::from` on a `bool`: `true` or `false`.
#[verifier::external_body]
pub(crate) fn value_of_flag(flag: bool) -> (value: serde_json::Value)
    ensures
        json_value(value) == ValueView::Flag(flag),
{
    serde_json::Value::from(flag)
}

/// Calls `serde_json::Value::from` on a `Vec<u8>`: a JSON array with one
/// number for each byte.
#[verifier::external_body]
pub(crate) fn value_of_bytes(bytes: Vec<u8>) -> (value: serde_json::Value)
    ensures
        json_value(value) == ValueView::Bytes(bytes@),
{
    serde_json::Value::from(bytes)
}

} // verus!
