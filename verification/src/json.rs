//! JSON documents, built and printed by `serde_json`.
//!
//! The library decides which fields a document holds; `serde_json` holds the
//! document and prints it. What it prints is known here only by name.
use crate::text::signed_decimal;
use vstd::prelude::*;

verus! {

#[verifier::external_type_specification]
#[verifier::external_body]
pub struct ExJsonValue(serde_json::Value);

#[verifier::external_type_specification]
#[verifier::external_body]
#[verifier::reject_recursive_types(K)]
#[verifier::reject_recursive_types(V)]
pub struct ExJsonMap<K, V>(serde_json::Map<K, V>);

/// A JSON object under construction.
pub type JsonMap = serde_json::Map<String, serde_json::Value>;

/// The fields of a JSON object: each key with the JSON text of its value.
pub type Fields = Map<Seq<char>, Seq<char>>;

/// An object without fields.
pub open spec fn no_fields() -> Fields {
    Map::empty()
}

/// The JSON text that `serde_json` prints for a value.
pub uninterp spec fn value_text(v: serde_json::Value) -> Seq<char>;

/// The fields that a `serde_json::Map` holds.
pub uninterp spec fn json_fields(m: JsonMap) -> Fields;

/// The JSON text of a string: quoted, with its escapes.
pub uninterp spec fn json_string(s: Seq<char>) -> Seq<char>;

/// Texts one after the other, with a comma between each two.
pub open spec fn comma_joined(items: Seq<Seq<char>>) -> Seq<char>
    decreases items.len(),
{
    if items.len() == 0 {
        Seq::<char>::empty()
    } else if items.len() == 1 {
        items[0]
    } else {
        comma_joined(items.drop_last()) + ","@ + items.last()
    }
}

/// The JSON text of an array whose items have the given JSON texts: the
/// items in their order between square brackets, with a comma between each
/// two and no white space.
pub open spec fn json_list(items: Seq<Seq<char>>) -> Seq<char> {
    "["@ + comma_joined(items) + "]"@
}

/// The JSON text of an object with the given fields.
pub uninterp spec fn json_object(fields: Fields) -> Seq<char>;

/// The JSON text that `serde_json` prints for the value that it reads off a
/// text: `null` where the text is no JSON.
pub uninterp spec fn json_reading(text: Seq<char>) -> Seq<char>;

/// The JSON text of a boolean.
pub open spec fn json_bool(b: bool) -> Seq<char> {
    if b {
        "true"@
    } else {
        "false"@
    }
}

/// The JSON texts of the values of a list.
pub open spec fn value_texts(items: Seq<serde_json::Value>) -> Seq<Seq<char>> {
    items.map_values(|v: serde_json::Value| value_text(v))
}

/// Makes `serde_json::Value::String`: a JSON string with the given content.
#[verifier::external_body]
pub(crate) fn string_value(s: &str) -> (v: serde_json::Value)
    ensures
        value_text(v) == json_string(s@),
{
    serde_json::Value::String(s.to_owned())
}

/// Makes a `serde_json::Value` from an `i64`: a JSON number, printed in
/// decimal.
#[verifier::external_body]
pub(crate) fn int_value(i: i64) -> (v: serde_json::Value)
    ensures
        value_text(v) == signed_decimal(i as int),
{
    serde_json::Value::from(i)
}

/// Makes `serde_json::Value::Bool`, printed as `true` or `false`.
#[verifier::external_body]
pub(crate) fn bool_value(b: bool) -> (v: serde_json::Value)
    ensures
        value_text(v) == json_bool(b),
{
    serde_json::Value::Bool(b)
}

/// Makes `serde_json::Value::Array` of the given values, in their order. It
/// is printed as `[`, the values' texts with a comma between each two, and
/// `]`.
#[verifier::external_body]
pub(crate) fn array_value(items: Vec<serde_json::Value>) -> (v: serde_json::Value)
    ensures
        value_text(v) == json_list(value_texts(items@)),
{
    serde_json::Value::Array(items)
}

/// Makes `serde_json::Value::Object` of a map: a JSON object with its fields.
#[verifier::external_body]
pub(crate) fn object_value(m: JsonMap) -> (v: serde_json::Value)
    ensures
        value_text(v) == json_object(json_fields(m)),
{
    serde_json::Value::Object(m)
}

/// Calls `serde_json::from_str`, which reads one JSON value off a text, and
/// takes `null` where it reads none. What it reads depends on the text alone.
#[verifier::external_body]
pub(crate) fn read_value(text: &str) -> (v: serde_json::Value)
    ensures
        value_text(v) == json_reading(text@),
{
    serde_json::from_str(text).unwrap_or(serde_json::Value::Null)
}

/// Calls `serde_json::Map::new`: a map without fields.
#[verifier::external_body]
pub(crate) fn new_object() -> (m: JsonMap)
    ensures
        json_fields(m) == no_fields(),
{
    serde_json::Map::new()
}

/// Calls `serde_json::Map::insert`: the key holds the value afterwards,
/// whether or not it was there before; the other fields stay.
#[verifier::external_body]
pub(crate) fn insert_field(m: &mut JsonMap, key: &str, v: serde_json::Value)
    ensures
        json_fields(*final(m)) == json_fields(*old(m)).insert(key@, value_text(v)),
{
    m.insert(key.to_owned(), v);
}

/// Prints a value through its `Display`, which writes compact JSON.
#[verifier::external_body]
pub(crate) fn render(v: &serde_json::Value) -> (s: String)
    ensures
        s@ == value_text(*v),
{
    v.to_string()
}

/// Sets a field to a string.
pub fn put_str(m: &mut JsonMap, key: &str, val: &str)
    ensures
        json_fields(*final(m)) == json_fields(*old(m)).insert(key@, json_string(val@)),
{
    insert_field(m, key, string_value(val));
}

/// Sets a field to an integer.
pub fn put_int(m: &mut JsonMap, key: &str, val: i64)
    ensures
        json_fields(*final(m)) == json_fields(*old(m)).insert(key@, signed_decimal(val as int)),
{
    insert_field(m, key, int_value(val));
}

/// Sets a field to the JSON value that a text spells: a number with
/// decimal places, for one.
pub fn put_json(m: &mut JsonMap, key: &str, text: &str)
    ensures
        json_fields(*final(m)) == json_fields(*old(m)).insert(key@, json_reading(text@)),
{
    insert_field(m, key, read_value(text));
}

/// Sets a field to a boolean.
pub fn put_bool(m: &mut JsonMap, key: &str, val: bool)
    ensures
        json_fields(*final(m)) == json_fields(*old(m)).insert(key@, json_bool(val)),
{
    insert_field(m, key, bool_value(val));
}

/// The JSON texts of a list of strings.
pub open spec fn string_texts(items: Seq<Seq<char>>) -> Seq<Seq<char>> {
    items.map_values(|s: Seq<char>| json_string(s))
}

/// Sets a field to a list of strings.
pub fn put_list(m: &mut JsonMap, key: &str, items: &Vec<String>)
    ensures
        json_fields(*final(m)) == json_fields(*old(m)).insert(
            key@,
            json_list(string_texts(items.deep_view())),
        ),
{
    let mut values: Vec<serde_json::Value> = Vec::new();
    let mut i: usize = 0;
    while i < items.len()
        invariant
            i <= items@.len(),
            value_texts(values@) == string_texts(items.deep_view().take(i as int)),
        decreases items@.len() - i,
    {
        let v = string_value(items[i].as_str());
        let ghost before = values@;
        values.push(v);
        assert(value_texts(values@) =~= value_texts(before).push(json_string(items@[i as int]@)));
        assert(string_texts(items.deep_view().take(i + 1)) =~= string_texts(
            items.deep_view().take(i as int),
        ).push(json_string(items@[i as int]@)));
        i += 1;
    }
    assert(items.deep_view().take(items@.len() as int) =~= items.deep_view());
    insert_field(m, key, array_value(values));
}

/// Sets a field to an object.
pub fn put_object(m: &mut JsonMap, key: &str, inner: JsonMap)
    ensures
        json_fields(*final(m)) == json_fields(*old(m)).insert(
            key@,
            json_object(json_fields(inner)),
        ),
{
    insert_field(m, key, object_value(inner));
}

/// The JSON text of an object.
pub fn object_text(m: JsonMap) -> (s: String)
    ensures
        s@ == json_object(json_fields(m)),
{
    let v = object_value(m);
    render(&v)
}

} // verus!
