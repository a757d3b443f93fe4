//! A JSON tree, and its text form through serde_json.
use vstd::prelude::*;

use crate::store::text_lt;

verus! {

/// A JSON value. Numbers are integers: the wire protocol carries no fractions.
#[derive(Debug, PartialEq)]
pub enum JsonValue {
    Null,
    Bool(bool),
    Number(i128),
    Text(String),
    Array(Vec<JsonValue>),
    Object(Vec<(String, JsonValue)>),
}

/// A value that its JSON text reads back as unchanged: every number within
/// serde_json's integer range, and every object's keys strictly increasing (serde_json
/// keeps object keys sorted and holds one value per key).
pub open spec fn json_canonical(v: JsonValue) -> bool
    decreases v,
{
    match v {
        JsonValue::Number(n) => i64::MIN <= n <= u64::MAX,
        JsonValue::Array(items) => forall|i: int| 0 <= i < items@.len() ==> #[trigger] json_canonical(items@[i]),
        JsonValue::Object(fields) => {
            &&& forall|i: int, j: int| 0 <= i < j < fields@.len() ==> text_lt(#[trigger] fields@[i].0@, #[trigger] fields@[j].0@)
            &&& forall|i: int| 0 <= i < fields@.len() ==> #[trigger] json_canonical(fields@[i].1)
        },
        _ => true,
    }
}

#[verifier::external_type_specification]
#[verifier::external_body]
pub struct ExValue(serde_json::Value);

/// The compact JSON text of a value, as serde_json writes it.
pub uninterp spec fn json_text(v: JsonValue) -> Seq<char>;

/// The value that serde_json reads from a text, if the text is JSON whose numbers are all integers.
pub uninterp spec fn json_parse(s: Seq<char>) -> Option<JsonValue>;

/// The first value stored under `key` in an object's fields.
pub open spec fn field_of(fields: Seq<(String, JsonValue)>, key: Seq<char>) -> Option<JsonValue>
    decreases fields.len(),
{
    if fields.len() == 0 {
        None
    } else if fields[0].0@ == key {
        Some(fields[0].1)
    } else {
        field_of(fields.drop_first(), key)
    }
}

/// Converts the library's tree into serde_json's, node for node; a number outside
/// serde_json's integer range becomes `null`. Used only by `render_json`.
#[verifier::external_body]
fn to_serde(v: &JsonValue) -> serde_json::Value {
    match v {
        JsonValue::Null => serde_json::Value::Null,
        JsonValue::Bool(b) => serde_json::Value::Bool(*b),
        JsonValue::Number(n) => serde_json::Number::from_i128(*n).map_or(serde_json::Value::Null, serde_json::Value::Number),
        JsonValue::Text(s) => serde_json::Value::String(s.clone()),
        JsonValue::Array(items) => serde_json::Value::Array(items.iter().map(to_serde).collect()),
        JsonValue::Object(fields) => serde_json::Value::Object(fields.iter().map(|(k, x)| (k.clone(), to_serde(x))).collect()),
    }
}

/// Converts serde_json's tree into the library's, node for node; a tree holding a
/// fraction has no counterpart. Used only by `parse_json`.
#[verifier::external_body]
fn from_serde(v: serde_json::Value) -> Option<JsonValue> {
    match v {
        serde_json::Value::Null => Some(JsonValue::Null),
        serde_json::Value::Bool(b) => Some(JsonValue::Bool(b)),
        serde_json::Value::Number(n) => n.as_i128().map(JsonValue::Number),
        serde_json::Value::String(s) => Some(JsonValue::Text(s)),
        serde_json::Value::Array(items) => items.into_iter().map(from_serde).collect::<Option<Vec<_>>>().map(JsonValue::Array),
        serde_json::Value::Object(m) => m.into_iter().map(|(k, x)| from_serde(x).map(|y| (k, y))).collect::<Option<Vec<_>>>().map(JsonValue::Object),
    }
}

/// Relies on serde_json::to_string on a serde_json::Value: the compact form, which
/// escapes every control character inside strings and so holds no line break.
#[verifier::external_body]
pub(crate) fn render_json(v: &JsonValue) -> (r: String)
    ensures
        r@ == json_text(*v),
        !r@.contains('\n'),
{
    serde_json::to_string(&to_serde(v)).unwrap_or_default()
}

/// Relies on serde_json::from_str into a serde_json::Value.
#[verifier::external_body]
pub(crate) fn parse_json(s: &str) -> (r: Option<JsonValue>)
    ensures
        r == json_parse(s@),
{
    serde_json::from_str::<serde_json::Value>(s).ok().and_then(from_serde)
}

/// A text value holding a copy of `s`.
pub fn text(s: &String) -> (r: JsonValue)
    ensures
        r == JsonValue::Text(*s),
{
    JsonValue::Text(s.clone())
}

/// `Null` for `None`, a text value otherwise.
pub open spec fn opt_text_json(o: Option<String>) -> JsonValue {
    match o {
        Some(s) => JsonValue::Text(s),
        None => JsonValue::Null,
    }
}

pub fn opt_text(o: &Option<String>) -> (r: JsonValue)
    ensures
        r == opt_text_json(*o),
{
    match o {
        Some(s) => JsonValue::Text(s.clone()),
        None => JsonValue::Null,
    }
}

/// The value under `key`, found by the first matching field.
pub fn get_field<'a>(fields: &'a Vec<(String, JsonValue)>, key: &str) -> (r: Option<&'a JsonValue>)
    ensures
        match field_of(fields@, key@) {
            Some(v) => r is Some && *r.unwrap() == v,
            None => r is None,
        },
{
    let k = key.to_owned();
    let mut i: usize = 0;
    assert(fields@.skip(0) =~= fields@);
    while i < fields.len()
        invariant
            i <= fields@.len(),
            k@ == key@,
            field_of(fields@, key@) == field_of(fields@.skip(i as int), key@),
        decreases fields@.len() - i,
    {
        assert(fields@.skip(i as int).drop_first() =~= fields@.skip(i + 1));
        if <String as PartialEq>::eq(&fields[i].0, &k) {
            return Some(&fields[i].1);
        }
        i += 1;
    }
    None
}

} // verus!
